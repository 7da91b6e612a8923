//! The total constructors of the data model: missing item and parameter
//! lists default to empty, anonymous payloads carry the inline identity.

use mex_lang::ast::{Id, Literal};
use mex_lang::model::{
    EnumItem, ItemType, ModelDefinition, ModelParam, ModelParamDefinition, RecordItem, TupleItem,
};
use mex_lang::scope::Scope;

fn name(s: &str) -> Id {
    Id::Name(s.to_string())
}

fn named_type(s: &str) -> ItemType {
    ItemType::Model(name(s), vec![])
}

#[test]
fn model_definition_constructors_default_to_empty_lists() {
    assert_eq!(
        ModelDefinition::new_record(name("R"), None, None),
        ModelDefinition::Record(name("R"), vec![], vec![])
    );
    assert_eq!(
        ModelDefinition::new_fragment(name("F"), None, None),
        ModelDefinition::Fragment(name("F"), vec![], vec![])
    );
    assert_eq!(
        ModelDefinition::new_tuple(name("T"), None, None),
        ModelDefinition::Tuple(name("T"), vec![], vec![])
    );
    assert_eq!(
        ModelDefinition::new_enum(name("E"), vec![], None),
        ModelDefinition::Enum(name("E"), vec![], vec![])
    );
    assert_eq!(
        ModelDefinition::new_alias(name("A"), None, named_type("B")),
        ModelDefinition::Alias(name("A"), vec![], Box::new(named_type("B")))
    );
    assert_eq!(ModelDefinition::new_scalar(name("S")), ModelDefinition::Scalar(name("S")));
}

#[test]
fn enum_item_constructors_wrap_anonymous_payloads() {
    assert_eq!(EnumItem::new_item(name("V")), EnumItem::Item(name("V")));
    assert_eq!(
        EnumItem::new_record(name("V"), vec![]),
        EnumItem::Record(
            name("V"),
            ItemType::Inline(ModelDefinition::Record(Id::Inline, vec![], vec![])),
        )
    );
    assert_eq!(
        EnumItem::new_tuple(name("V"), vec![TupleItem::new_item(named_type("Int"))]),
        EnumItem::Tuple(
            name("V"),
            ItemType::Inline(ModelDefinition::Tuple(
                Id::Inline,
                vec![TupleItem::Item(named_type("Int"))],
                vec![],
            )),
        )
    );
    assert_eq!(
        EnumItem::new_enum(name("V"), vec![EnumItem::new_item(name("W"))]),
        EnumItem::Enum(
            name("V"),
            ItemType::Inline(ModelDefinition::Enum(
                Id::Inline,
                vec![EnumItem::Item(name("W"))],
                vec![],
            )),
        )
    );
}

#[test]
fn item_type_constructors() {
    assert_eq!(ItemType::new_name(name("X"), None), ItemType::Model(name("X"), vec![]));
    assert_eq!(
        ItemType::new_name(name("X"), Some(vec![ModelParam::new_generic(named_type("Y"))])),
        ItemType::Model(name("X"), vec![ModelParam::Generic(named_type("Y"))])
    );
    assert_eq!(
        ItemType::new_inline(ModelDefinition::new_scalar(name("S"))),
        ItemType::Inline(ModelDefinition::Scalar(name("S")))
    );
    assert_eq!(
        ItemType::new_inline_tuple(vec![]),
        ItemType::Inline(ModelDefinition::Tuple(Id::Inline, vec![], vec![]))
    );
}

#[test]
fn item_and_parameter_constructors() {
    assert_eq!(
        RecordItem::new_item(name("x"), named_type("Int")),
        RecordItem::Item(name("x"), named_type("Int"))
    );
    assert_eq!(
        RecordItem::new_spread(named_type("Base")),
        RecordItem::Spread(named_type("Base"))
    );
    assert_eq!(TupleItem::new_item(named_type("Int")), TupleItem::Item(named_type("Int")));
    assert_eq!(
        TupleItem::new_named_item("x", named_type("Int")),
        TupleItem::NamedItem(name("x"), named_type("Int"))
    );
    assert_eq!(
        ModelParam::new_metadata(name("size"), Literal::Number("10".to_string())),
        ModelParam::Metadata(name("size"), Literal::Number("10".to_string()))
    );
    assert_eq!(
        ModelParamDefinition::new_generic(name("T"), None),
        ModelParamDefinition::Generic { id: name("T"), constraint_type: None }
    );
    assert_eq!(
        ModelParamDefinition::new_metadata(name("size"), named_type("Int"), None),
        ModelParamDefinition::Metadata {
            id: name("size"),
            type_id: named_type("Int"),
            def_value: None,
        }
    );
}

#[test]
fn absent_optional_names_collapse_to_inline() {
    assert_eq!(Id::from_option(None), Id::Inline);
    assert_eq!(Id::from_option(Some(name("x"))), name("x"));
}

#[test]
fn scope_constructors() {
    assert_eq!(Scope::new_package(name("p"), None), Scope::Package(name("p"), vec![]));
    assert_eq!(
        Scope::new_model(ModelDefinition::new_scalar(name("s"))),
        Scope::Model(ModelDefinition::Scalar(name("s")))
    );
}
