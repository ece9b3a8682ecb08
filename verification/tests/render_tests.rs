use api_surface::builder::build_tree;
use api_surface::render::{render_declarations, render_tree};
use api_surface::surface::{DeclKind, Declaration};

fn decl(kind: DeclKind, path: &str, docs: &[&str], gens: &[&str]) -> Declaration {
    Declaration {
        kind,
        qualified_path: path.to_string(),
        doc_lines: docs.iter().map(|s| s.to_string()).collect(),
        generics: gens.iter().map(|s| s.to_string()).collect(),
    }
}

fn sample_surface() -> Vec<Declaration> {
    vec![
        decl(DeclKind::Module, "sample_module", &["This is a sample module"], &[]),
        decl(
            DeclKind::Function,
            "sample_module::sample_function",
            &["This is a sample function"],
            &[],
        ),
        decl(DeclKind::Struct, "sample_module::SampleStruct", &["This is a sample struct"], &[]),
        decl(
            DeclKind::Module,
            "docs::module_example::lease::sample_module2",
            &["This is a sample module"],
            &[],
        ),
        decl(
            DeclKind::Function,
            "docs::module_example::lease::sample_module2::sample_function2",
            &["This is a sample function"],
            &[],
        ),
        decl(
            DeclKind::Struct,
            "docs::module_example::lease::sample_module2::SampleStruct2",
            &["This is a sample struct"],
            &[],
        ),
        decl(DeclKind::Function, "docs::module_example::lease::use_sample_struct2", &[], &[]),
        decl(DeclKind::Trait, "docs::MyTrait", &[], &[]),
        decl(DeclKind::Function, "docs::foo", &[], &["T", "V"]),
        decl(DeclKind::Function, "docs::bar", &[], &["T", "V"]),
    ]
}

fn sample_text() -> String {
    let lines = [
        "/// This is a sample module",
        "pub mod sample_module {",
        "    /// This is a sample function",
        "    pub fn sample_function()",
        "    /// This is a sample struct",
        "    pub struct SampleStruct {",
        "    }",
        "}",
        "pub mod docs {",
        "    pub mod module_example {",
        "        pub mod lease {",
        "            /// This is a sample module",
        "            pub mod sample_module2 {",
        "                /// This is a sample function",
        "                pub fn sample_function2()",
        "                /// This is a sample struct",
        "                pub struct SampleStruct2 {",
        "                }",
        "            }",
        "            pub fn use_sample_struct2()",
        "        }",
        "    }",
        "    pub trait MyTrait {",
        "    }",
        "    pub fn foo<T, V>(v: &T)",
        "    pub fn bar<T, V>(v: &T)",
        "}",
    ];
    let mut text = String::new();
    for line in lines.iter() {
        text.push_str(line);
        text.push('\n');
    }
    text
}

#[test]
fn whole_sample_surface_renders_exactly() {
    let out = render_declarations(&sample_surface()).unwrap();
    assert_eq!(out, sample_text());
}

#[test]
fn rendering_twice_is_identical() {
    let tree = build_tree(&sample_surface()).unwrap();
    let first = render_tree(&tree);
    let second = render_tree(&tree);
    assert_eq!(first, second);
}

#[test]
fn module_function_struct_scenario() {
    let decls = vec![
        decl(DeclKind::Module, "sample_module", &[], &[]),
        decl(
            DeclKind::Function,
            "sample_module::sample_function",
            &["This is a sample function"],
            &[],
        ),
        decl(DeclKind::Struct, "sample_module::SampleStruct", &["This is a sample struct"], &[]),
    ];
    let expected = "pub mod sample_module {\n\
        \x20   /// This is a sample function\n\
        \x20   pub fn sample_function()\n\
        \x20   /// This is a sample struct\n\
        \x20   pub struct SampleStruct {\n\
        \x20   }\n\
        }\n";
    assert_eq!(render_declarations(&decls).unwrap(), expected);
}

#[test]
fn declaration_order_is_kept() {
    let decls = vec![
        decl(DeclKind::Module, "zeta", &[], &[]),
        decl(DeclKind::Module, "alpha", &[], &[]),
        decl(DeclKind::Module, "middle", &[], &[]),
    ];
    let expected = "pub mod zeta {\n}\npub mod alpha {\n}\npub mod middle {\n}\n";
    assert_eq!(render_declarations(&decls).unwrap(), expected);
}

#[test]
fn deep_path_nests_with_increasing_indentation() {
    let decls = vec![decl(DeclKind::Module, "docs::module_example::lease::sample_module2", &[], &[])];
    let expected = "pub mod docs {\n\
        \x20   pub mod module_example {\n\
        \x20       pub mod lease {\n\
        \x20           pub mod sample_module2 {\n\
        \x20           }\n\
        \x20       }\n\
        \x20   }\n\
        }\n";
    assert_eq!(render_declarations(&decls).unwrap(), expected);
}

#[test]
fn single_doc_line_sits_directly_above_declaration() {
    let decls = vec![decl(
        DeclKind::Function,
        "m::f",
        &["This is a sample function"],
        &[],
    )];
    let expected = "pub mod m {\n    /// This is a sample function\n    pub fn f()\n}\n";
    assert_eq!(render_declarations(&decls).unwrap(), expected);
}

#[test]
fn late_module_declaration_attaches_doc() {
    let decls = vec![
        decl(DeclKind::Function, "m::f", &[], &[]),
        decl(DeclKind::Module, "m", &["late doc"], &[]),
    ];
    let expected = "/// late doc\npub mod m {\n    pub fn f()\n}\n";
    assert_eq!(render_declarations(&decls).unwrap(), expected);
}

#[test]
fn function_without_generics_gets_empty_parens() {
    let decls = vec![decl(DeclKind::Function, "f", &[], &[])];
    assert_eq!(render_declarations(&decls).unwrap(), "pub fn f()\n");
}

#[test]
fn function_with_one_generic() {
    let decls = vec![decl(DeclKind::Function, "f", &[], &["T"])];
    assert_eq!(render_declarations(&decls).unwrap(), "pub fn f<T>(v: &T)\n");
}

#[test]
fn trait_renders_empty_braces() {
    let decls = vec![decl(DeclKind::Trait, "MyTrait", &[], &[])];
    assert_eq!(render_declarations(&decls).unwrap(), "pub trait MyTrait {\n}\n");
}

#[test]
fn struct_renders_empty_braces() {
    let decls = vec![decl(DeclKind::Struct, "S", &["doc line one", "doc line two"], &[])];
    assert_eq!(
        render_declarations(&decls).unwrap(),
        "/// doc line one\n/// doc line two\npub struct S {\n}\n"
    );
}

#[test]
fn empty_surface_renders_empty_text() {
    let decls: Vec<Declaration> = vec![];
    assert_eq!(render_declarations(&decls).unwrap(), "");
}
