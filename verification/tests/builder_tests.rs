use api_surface::builder::build_tree;
use api_surface::render::render_declarations;
use api_surface::surface::{BuildError, DeclKind, Declaration};

fn decl(kind: DeclKind, path: &str, docs: &[&str], gens: &[&str]) -> Declaration {
    Declaration {
        kind,
        qualified_path: path.to_string(),
        doc_lines: docs.iter().map(|s| s.to_string()).collect(),
        generics: gens.iter().map(|s| s.to_string()).collect(),
    }
}

#[test]
fn duplicate_kind_and_path_is_rejected() {
    let decls = vec![
        decl(DeclKind::Function, "m::f", &[], &[]),
        decl(DeclKind::Function, "m::f", &["other doc"], &[]),
    ];
    assert_eq!(
        build_tree(&decls).unwrap_err(),
        BuildError::DuplicateDeclaration("m::f".to_string())
    );
}

#[test]
fn duplicate_module_declaration_is_rejected() {
    let decls = vec![
        decl(DeclKind::Module, "m", &[], &[]),
        decl(DeclKind::Module, "m", &[], &[]),
    ];
    assert_eq!(
        build_tree(&decls).unwrap_err(),
        BuildError::DuplicateDeclaration("m".to_string())
    );
}

#[test]
fn same_path_different_kind_is_allowed() {
    let decls = vec![
        decl(DeclKind::Function, "m::item", &[], &[]),
        decl(DeclKind::Struct, "m::item", &[], &[]),
    ];
    let expected = "pub mod m {\n    pub fn item()\n    pub struct item {\n    }\n}\n";
    assert_eq!(render_declarations(&decls).unwrap(), expected);
}

#[test]
fn empty_path_is_malformed() {
    let decls = vec![decl(DeclKind::Function, "", &[], &[])];
    assert_eq!(
        build_tree(&decls).unwrap_err(),
        BuildError::MalformedPath("".to_string())
    );
}

#[test]
fn trailing_separator_is_malformed() {
    let decls = vec![decl(DeclKind::Module, "a::", &[], &[])];
    assert_eq!(
        build_tree(&decls).unwrap_err(),
        BuildError::MalformedPath("a::".to_string())
    );
}

#[test]
fn empty_middle_segment_is_malformed() {
    let decls = vec![decl(DeclKind::Module, "a::::b", &[], &[])];
    assert_eq!(
        build_tree(&decls).unwrap_err(),
        BuildError::MalformedPath("a::::b".to_string())
    );
}

#[test]
fn non_identifier_character_is_malformed() {
    let decls = vec![decl(DeclKind::Function, "m::bad-name", &[], &[])];
    assert_eq!(
        build_tree(&decls).unwrap_err(),
        BuildError::MalformedPath("m::bad-name".to_string())
    );
}

#[test]
fn lone_colon_is_malformed() {
    let decls = vec![decl(DeclKind::Function, "a:b", &[], &[])];
    assert_eq!(
        build_tree(&decls).unwrap_err(),
        BuildError::MalformedPath("a:b".to_string())
    );
}

#[test]
fn first_offending_declaration_is_reported() {
    let decls = vec![
        decl(DeclKind::Module, "ok", &[], &[]),
        decl(DeclKind::Module, "not ok", &[], &[]),
        decl(DeclKind::Module, "ok", &[], &[]),
    ];
    assert_eq!(
        build_tree(&decls).unwrap_err(),
        BuildError::MalformedPath("not ok".to_string())
    );
}

#[test]
fn underscores_and_digits_are_valid() {
    let decls = vec![decl(DeclKind::Function, "mod_1::f_2", &[], &[])];
    assert_eq!(
        render_declarations(&decls).unwrap(),
        "pub mod mod_1 {\n    pub fn f_2()\n}\n"
    );
}

#[test]
fn intermediate_modules_are_reused_not_duplicated() {
    let decls = vec![
        decl(DeclKind::Function, "outer::inner::first", &[], &[]),
        decl(DeclKind::Function, "outer::inner::second", &[], &[]),
    ];
    let expected = "pub mod outer {\n\
        \x20   pub mod inner {\n\
        \x20       pub fn first()\n\
        \x20       pub fn second()\n\
        \x20   }\n\
        }\n";
    assert_eq!(render_declarations(&decls).unwrap(), expected);
}
