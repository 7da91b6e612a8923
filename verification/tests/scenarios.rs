//! Concrete end-to-end scenarios: exact trees and exact renderings.

use mex_lang::ast::Id;
use mex_lang::model::{EnumItem, ItemType, ModelDefinition, TupleItem};
use mex_lang::parser::make_ast;
use mex_lang::render_to_string;
use mex_lang::scope::Scope;

fn name(s: &str) -> Id {
    Id::Name(s.to_string())
}

fn named_type(s: &str) -> ItemType {
    ItemType::Model(name(s), vec![])
}

#[test]
fn root_package_tree_and_render() {
    let (tree, root_form) = make_ast("package main;");
    assert!(root_form);
    assert_eq!(tree, Scope::Global(vec![Scope::Package(name("main"), vec![])]));
    assert_eq!(render_to_string(&tree, root_form, 4), "package main;");
}

#[test]
fn empty_tuple_model_tree_and_render() {
    let (tree, root_form) = make_ast("model Point()");
    assert!(!root_form);
    assert_eq!(
        tree,
        Scope::Global(vec![Scope::Model(ModelDefinition::Tuple(name("Point"), vec![], vec![]))])
    );
    assert_eq!(render_to_string(&tree, root_form, 4), "model Point()");
}

#[test]
fn two_field_tuple_has_no_trailing_comma() {
    let (tree, root_form) = make_ast("model Test(Int, Int)");
    assert_eq!(render_to_string(&tree, root_form, 4), "model Test(Int, Int)");
}

#[test]
fn duplicate_scalars_are_both_preserved() {
    let (tree, root_form) = make_ast("scalar s1;\nscalar s1;");
    let leaf = Scope::Model(ModelDefinition::Scalar(name("s1")));
    let leaf_again = Scope::Model(ModelDefinition::Scalar(name("s1")));
    assert_eq!(tree, Scope::Global(vec![leaf, leaf_again]));
    assert_eq!(render_to_string(&tree, root_form, 4), "scalar s1;\nscalar s1;");
}

#[test]
fn enum_with_tuple_variant_tree_and_render() {
    let code = "enum Status {\n    Test(Int)\n}";
    let (tree, root_form) = make_ast(code);
    let payload = ItemType::Inline(ModelDefinition::Tuple(
        Id::Inline,
        vec![TupleItem::Item(named_type("Int"))],
        vec![],
    ));
    assert_eq!(
        tree,
        Scope::Global(vec![Scope::Model(ModelDefinition::Enum(
            name("Status"),
            vec![EnumItem::Tuple(name("Test"), payload)],
            vec![],
        ))])
    );
    assert_eq!(render_to_string(&tree, root_form, 4), code);
}

#[test]
fn invalid_construct_leaves_valid_siblings_in_order() {
    let (tree, root_form) = make_ast("scalar a;\n???\nscalar b;");
    match &tree {
        Scope::Global(children) => {
            assert_eq!(children.len(), 3);
            assert_eq!(children[0], Scope::Model(ModelDefinition::Scalar(name("a"))));
            assert!(matches!(children[1], Scope::Error(_)));
            assert_eq!(children[2], Scope::Model(ModelDefinition::Scalar(name("b"))));
        },
        _ => panic!("expected a global scope"),
    }
    assert_eq!(
        render_to_string(&tree, root_form, 4),
        "scalar a;\nerror: unexpected ?\nscalar b;"
    );
}

#[test]
fn blank_line_between_packages_is_preserved() {
    let code = "package name {\n}\n\npackage name {\n}";
    let (tree, root_form) = make_ast(code);
    assert_eq!(render_to_string(&tree, root_form, 4), code);
}

#[test]
fn paragraph_break_never_stacks_into_two_blank_lines() {
    // the same two packages with no blank line between them render with
    // exactly one, and that rendering is already canonical
    let (tree, root_form) = make_ast("package a {\n}\npackage b {\n}");
    let rendered = render_to_string(&tree, root_form, 4);
    assert_eq!(rendered, "package a {\n}\n\npackage b {\n}");
    assert!(!rendered.contains("\n\n\n"));
    let (tree2, root_form2) = make_ast(&rendered);
    assert_eq!(render_to_string(&tree2, root_form2, 4), rendered);
}

#[test]
fn zero_blank_lines_between_scalars_stay_zero() {
    let (tree, root_form) = make_ast("scalar s1;\nscalar s1;");
    let rendered = render_to_string(&tree, root_form, 4);
    assert!(!rendered.contains("\n\n"));
}

#[test]
fn model_in_root_package_keeps_its_blank_line() {
    let code = "package name;\n\nmodel Point()";
    let (tree, root_form) = make_ast(code);
    assert!(root_form);
    assert_eq!(
        tree,
        Scope::Global(vec![Scope::Package(
            name("name"),
            vec![Scope::Model(ModelDefinition::Tuple(name("Point"), vec![], vec![]))],
        )])
    );
    assert_eq!(render_to_string(&tree, root_form, 4), code);
}

#[test]
fn error_description_names_the_offending_token() {
    let (tree, _) = make_ast("= broken");
    match &tree {
        Scope::Global(children) => {
            assert_eq!(children.len(), 1);
            match &children[0] {
                Scope::Error(e) => assert_eq!(e.description, "unexpected ="),
                other => panic!("expected an error leaf, got {:?}", other),
            }
        },
        _ => panic!("expected a global scope"),
    }
}
