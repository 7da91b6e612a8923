//! Round-trip and fixed-point behavior of the parse-render pipeline on
//! canonical-form inputs, and rendering stability.

use mex_lang::parser::make_ast;
use mex_lang::render_to_string;

fn roundtrip(code: &str) {
    let (tree, root_form) = make_ast(code);
    assert_eq!(render_to_string(&tree, root_form, 4), code);
}

fn fixed_point(code: &str) {
    let (tree, root_form) = make_ast(code);
    let once = render_to_string(&tree, root_form, 4);
    let (tree2, root_form2) = make_ast(&once);
    let twice = render_to_string(&tree2, root_form2, 4);
    assert_eq!(twice, once);
}

#[test]
fn root_package() {
    roundtrip("package name;");
}

#[test]
fn empty_package() {
    roundtrip("package name {\n}");
}

#[test]
fn double_package() {
    roundtrip("package name {\n}\n\npackage name {\n}");
}

#[test]
fn nested_package() {
    roundtrip("package a {\n    package b {\n    }\n}");
}

#[test]
fn model_in_package_body() {
    roundtrip("package a {\n    scalar s1;\n}");
}

#[test]
fn empty_tuple_model() {
    roundtrip("model Point()");
}

#[test]
fn model_in_root_package() {
    roundtrip("package name;\n\nmodel Point()");
}

#[test]
fn double_scalar() {
    roundtrip("scalar s1;\nscalar s1;");
}

#[test]
fn named_tuple() {
    roundtrip("model Test(Int, Int)");
}

#[test]
fn inline_tuple() {
    roundtrip("model (Int, Int)");
}

#[test]
fn inline_empty_tuple() {
    roundtrip("model ()");
}

#[test]
fn inline_tuple_with_names() {
    roundtrip("model (x: Int, y: Int)");
}

#[test]
fn inline_nested_tuple() {
    roundtrip("model Point(Int, (Int, Int))");
}

#[test]
fn inline_nested_tuple_with_names() {
    roundtrip("model Point(x: Int, y: (Int, Int))");
}

#[test]
fn named_record() {
    roundtrip("model Test {\n    x: Int\n    y: Int\n    ... Test\n}");
}

#[test]
fn inline_record() {
    roundtrip("model {\n    ... Test\n    x: Int\n}");
}

#[test]
fn fragment_record() {
    roundtrip("fragment Common {\n    id: Int\n}");
}

#[test]
fn alias_declaration() {
    roundtrip("model Meters = Int;");
}

#[test]
fn named_enum() {
    roundtrip("enum Test {\n    Int\n}");
}

#[test]
fn inline_enum() {
    roundtrip("enum {\n    Int\n}");
}

#[test]
fn nested_tuple_enum() {
    roundtrip("enum Status {\n    Test(Int)\n}");
}

#[test]
fn nested_record_enum() {
    roundtrip("enum Status {\n    Test {\n        x: Int\n    }\n}");
}

#[test]
fn nested_inline_enum() {
    roundtrip("enum Status {\n    Sub enum {\n        Test\n    }\n}");
}

#[test]
fn nested_package_after_root_package() {
    roundtrip("package a;\n\npackage b {\n}");
}

#[test]
fn scalar_after_closed_package() {
    roundtrip("package a {\n}\n\nscalar x;");
}

#[test]
fn deeply_nested_package() {
    roundtrip("package a {\n    package b {\n        scalar x;\n    }\n}");
}

#[test]
fn record_then_next_declaration_keeps_one_blank_line() {
    roundtrip("model A {\n}\n\nmodel B()");
}

#[test]
fn generic_arguments_on_a_type_reference() {
    roundtrip("model V(Arr<Int>[size=10])");
}

#[test]
fn generic_arguments_with_two_types() {
    roundtrip("model Pair(Map<Int,Text>)");
}

#[test]
fn declared_generic_parameters() {
    roundtrip("model Holder<T> {\n    x: T\n}");
}

#[test]
fn declared_parameters_with_constraint_and_default() {
    roundtrip("model M<T:Ord>[size:Int=3] {\n}");
}

#[test]
fn alias_with_declared_parameters() {
    roundtrip("model Boxed<T> = Box<T>;");
}

#[test]
fn fixed_point_on_messy_whitespace() {
    fixed_point("model   Point(  Int ,   Int )");
}

#[test]
fn fixed_point_on_squashed_packages() {
    fixed_point("package a {\n}\npackage b {\n}");
}

#[test]
fn fixed_point_on_comments() {
    fixed_point("// a point\nmodel Point(Int, Int)");
}

#[test]
fn fixed_point_on_model_enum_form() {
    // the `model NAME enum { ... }` surface form parses to the same tree as
    // `enum NAME { ... }` and canonicalizes to the latter
    let (tree, root_form) = make_ast("model Status enum {\n    Test\n}");
    assert_eq!(render_to_string(&tree, root_form, 4), "enum Status {\n    Test\n}");
    fixed_point("model Status enum {\n    Test\n}");
}

#[test]
fn render_is_stable_across_repeated_calls() {
    let (tree, root_form) = make_ast("enum Status {\n    Test(Int)\n}");
    let first = render_to_string(&tree, root_form, 4);
    let second = render_to_string(&tree, root_form, 4);
    assert_eq!(first, second);
}
