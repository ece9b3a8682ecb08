//! Deterministic rendering of a surface tree as indented, doc-commented
//! pseudo-declarations.
//!
//! The emitted text is defined exactly by the specification functions below:
//! each nesting level adds four spaces, doc lines are prefixed with `/// `
//! at the declaration's indentation, modules open `pub mod <name> {` and
//! close with `}` at their own indentation, functions render a shape-only
//! signature from the recorded generic parameters, and structs and traits
//! render empty-braced headers. No blank lines are inserted, and only
//! `Module` nodes render children; the builder never gives other kinds any.

use vstd::prelude::*;
use vstd::string::*;
use crate::builder::{spec_build, BuildOutcome};
use crate::surface::{
    lemma_children_view, node_view, BuildError, DeclKind, Declaration, NodeV, SurfaceNode,
    SurfaceTree,
};

verus! {

broadcast use vstd::std_specs::vec::axiom_vec_index_decreases;

/// The doc comment lines of `docs[k..]`, each `<pre>/// <line>` on a line of
/// its own.
pub open spec fn doc_text(docs: Seq<String>, k: int, pre: Seq<char>) -> Seq<char>
    decreases docs.len() - k,
{
    if k < 0 || k >= docs.len() {
        Seq::empty()
    } else {
        pre + "/// "@ + docs[k]@ + "\n"@ + doc_text(docs, k + 1, pre)
    }
}

/// The tail of a generic parameter list: `, <g>` for each of `gens[k..]`.
pub open spec fn gen_tail(gens: Seq<String>, k: int) -> Seq<char>
    decreases gens.len() - k,
{
    if k < 0 || k >= gens.len() {
        Seq::empty()
    } else {
        ", "@ + gens[k]@ + gen_tail(gens, k + 1)
    }
}

/// The shape-only signature of a function: `()` without generics, and
/// `<T, V>(v: &T)` style with them, the placeholder parameter borrowing the
/// first generic parameter.
pub open spec fn fn_signature(gens: Seq<String>) -> Seq<char> {
    if gens.len() == 0 {
        "()"@
    } else {
        "<"@ + gens[0]@ + gen_tail(gens, 1) + ">(v: &"@ + gens[0]@ + ")"@
    }
}

/// The text of one node at indentation prefix `pre`.
pub open spec fn node_text(v: NodeV, pre: Seq<char>) -> Seq<char>
    decreases v, 1int,
{
    doc_text(v.docs, 0, pre) + decl_text(v, pre)
}

/// The declaration line (and, for modules, body and closing brace) of a
/// node, without its doc comment.
pub open spec fn decl_text(v: NodeV, pre: Seq<char>) -> Seq<char>
    decreases v, 0int,
{
    match v.kind {
        DeclKind::Module => pre + "pub mod "@ + v.name + " {\n"@ + children_text(
            v.children,
            0,
            pre + "    "@,
        ) + pre + "}\n"@,
        DeclKind::Function => pre + "pub fn "@ + v.name + fn_signature(v.gens) + "\n"@,
        DeclKind::Struct => pre + "pub struct "@ + v.name + " {\n"@ + pre + "}\n"@,
        DeclKind::Trait => pre + "pub trait "@ + v.name + " {\n"@ + pre + "}\n"@,
    }
}

/// The concatenated texts of `cs[k..]`.
pub open spec fn children_text(cs: Seq<NodeV>, k: int, pre: Seq<char>) -> Seq<char>
    decreases cs, cs.len() - k,
{
    if k < 0 || k >= cs.len() {
        Seq::empty()
    } else {
        node_text(cs[k], pre) + children_text(cs, k + 1, pre)
    }
}

/// The text of a whole surface: a root with an empty name stands for the
/// synthetic crate root and is rendered without braces; a named root is
/// rendered as an ordinary module.
pub open spec fn tree_text(v: NodeV) -> Seq<char> {
    if v.name.len() == 0 {
        children_text(v.children, 0, Seq::empty())
    } else {
        node_text(v, Seq::empty())
    }
}

/// Appends the doc comment lines of `docs` to `out`.
fn append_doc_lines(out: &mut String, docs: &Vec<String>, pre: &String)
    ensures
        final(out)@ == old(out)@ + doc_text(docs@, 0, pre@),
{
    let ghost base = out@;
    let mut k: usize = 0;
    while k < docs.len()
        invariant
            k <= docs@.len(),
            out@ + doc_text(docs@, k as int, pre@) == base + doc_text(docs@, 0, pre@),
        decreases docs@.len() - k,
    {
        let ghost before = out@;
        out.append(pre.as_str());
        out.append("/// ");
        out.append(docs[k].as_str());
        out.append("\n");
        proof {
            assert(out@ + doc_text(docs@, k + 1, pre@) == before + doc_text(docs@, k as int, pre@))
                by {
                assert(out@ + doc_text(docs@, k + 1, pre@) =~= before + (pre@ + "/// "@
                    + docs@[k as int]@ + "\n"@ + doc_text(docs@, k + 1, pre@)));
            }
        }
        k += 1;
    }
    assert(doc_text(docs@, docs@.len() as int, pre@) =~= Seq::<char>::empty());
    assert(out@ =~= out@ + doc_text(docs@, docs@.len() as int, pre@));
}

/// Appends the shape-only signature of a function to `out`.
fn append_fn_signature(out: &mut String, gens: &Vec<String>)
    ensures
        final(out)@ == old(out)@ + fn_signature(gens@),
{
    let ghost base = out@;
    if gens.len() == 0 {
        out.append("()");
        return;
    }
    out.append("<");
    out.append(gens[0].as_str());
    let mut k: usize = 1;
    while k < gens.len()
        invariant
            1 <= k <= gens@.len(),
            out@ + gen_tail(gens@, k as int) == base + "<"@ + gens@[0]@ + gen_tail(gens@, 1),
        decreases gens@.len() - k,
    {
        let ghost before = out@;
        out.append(", ");
        out.append(gens[k].as_str());
        proof {
            assert(out@ + gen_tail(gens@, k + 1) == before + gen_tail(gens@, k as int)) by {
                assert(out@ + gen_tail(gens@, k + 1) =~= before + (", "@ + gens@[k as int]@
                    + gen_tail(gens@, k + 1)));
            }
        }
        k += 1;
    }
    assert(gen_tail(gens@, gens@.len() as int) =~= Seq::<char>::empty());
    assert(out@ =~= out@ + gen_tail(gens@, gens@.len() as int));
    out.append(">(v: &");
    out.append(gens[0].as_str());
    out.append(")");
    assert(out@ =~= base + fn_signature(gens@));
}

/// Appends the text of `node` to `out`, at indentation prefix `pre`.
fn append_node(node: &SurfaceNode, pre: &String, out: &mut String)
    ensures
        final(out)@ == old(out)@ + node_text(node_view(*node), pre@),
    decreases *node, 1int, 0int,
{
    let ghost v = node_view(*node);
    append_doc_lines(out, &node.doc_lines, pre);
    match node.kind {
        DeclKind::Module => {
            out.append(pre.as_str());
            out.append("pub mod ");
            out.append(node.name.as_str());
            out.append(" {\n");
            let mut deeper = pre.clone();
            deeper.append("    ");
            append_children(node, &deeper, out);
            out.append(pre.as_str());
            out.append("}\n");
            assert(out@ =~= old(out)@ + node_text(v, pre@));
        },
        DeclKind::Function => {
            out.append(pre.as_str());
            out.append("pub fn ");
            out.append(node.name.as_str());
            append_fn_signature(out, &node.generics);
            out.append("\n");
            assert(out@ =~= old(out)@ + node_text(v, pre@));
        },
        DeclKind::Struct => {
            out.append(pre.as_str());
            out.append("pub struct ");
            out.append(node.name.as_str());
            out.append(" {\n");
            out.append(pre.as_str());
            out.append("}\n");
            assert(out@ =~= old(out)@ + node_text(v, pre@));
        },
        DeclKind::Trait => {
            out.append(pre.as_str());
            out.append("pub trait ");
            out.append(node.name.as_str());
            out.append(" {\n");
            out.append(pre.as_str());
            out.append("}\n");
            assert(out@ =~= old(out)@ + node_text(v, pre@));
        },
    }
}

/// Appends the texts of all children of `node` to `out`.
fn append_children(node: &SurfaceNode, pre: &String, out: &mut String)
    ensures
        final(out)@ == old(out)@ + children_text(node_view(*node).children, 0, pre@),
    decreases *node, 0int, 0int,
{
    let ghost cs = node_view(*node).children;
    proof {
        lemma_children_view(*node, 0);
    }
    let ghost base = out@;
    let mut k: usize = 0;
    while k < node.children.len()
        invariant
            k <= node.children@.len(),
            cs == node_view(*node).children,
            cs.len() == node.children@.len(),
            forall|j: int| 0 <= j < cs.len() ==> #[trigger] cs[j] == node_view(node.children@[j]),
            out@ + children_text(cs, k as int, pre@) == base + children_text(cs, 0, pre@),
        decreases node.children@.len() - k,
    {
        let ghost before = out@;
        proof {
            assert(decreases_to!(*node => node.children@[k as int]));
        }
        append_node(&node.children[k], pre, out);
        proof {
            assert(out@ + children_text(cs, k + 1, pre@) == before + children_text(cs, k as int, pre@))
                by {
                assert(out@ + children_text(cs, k + 1, pre@) =~= before + (node_text(
                    cs[k as int],
                    pre@,
                ) + children_text(cs, k + 1, pre@)));
            }
        }
        k += 1;
    }
    assert(children_text(cs, cs.len() as int, pre@) =~= Seq::<char>::empty());
    assert(out@ =~= out@ + children_text(cs, cs.len() as int, pre@));
}

/// Renders a surface tree as text. The result is a pure function of the
/// tree: it equals `tree_text` of the tree's view, so two renderings of
/// equal trees are byte-identical.
pub fn render_tree(tree: &SurfaceTree) -> (out: String)
    ensures
        out@ == tree_text(tree@),
{
    let mut out = String::new();
    let pre = String::new();
    if tree.root.name.as_str().unicode_len() == 0 {
        append_children(&tree.root, &pre, &mut out);
    } else {
        append_node(&tree.root, &pre, &mut out);
    }
    assert(Seq::<char>::empty() + tree_text(tree@) =~= tree_text(tree@));
    out
}

/// Builds and renders in one step: the whole pipeline from declaration
/// records to text, with the build errors passed through unchanged.
pub fn render_declarations(decls: &Vec<Declaration>) -> (r: Result<String, BuildError>)
    ensures
        match r {
            Ok(s) => match spec_build(decls@) {
                BuildOutcome::Built(v) => s@ == tree_text(v),
                _ => false,
            },
            Err(BuildError::MalformedPath(p)) => spec_build(decls@) == BuildOutcome::Malformed(
                p@,
            ),
            Err(BuildError::DuplicateDeclaration(p)) => spec_build(decls@)
                == BuildOutcome::Duplicate(p@),
        },
{
    match crate::builder::build_tree(decls) {
        Ok(tree) => Ok(render_tree(&tree)),
        Err(e) => Err(e),
    }
}

} // verus!
