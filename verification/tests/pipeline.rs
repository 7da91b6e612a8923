//! The pieces of the pipeline one by one: lexer, scope tree, transformer,
//! both render targets, parameter rendering, and source naming.

use mex_lang::ast::{Id, Literal};
use mex_lang::console_render::ConsoleRender;
use mex_lang::lexer::{tokenize, LexicalError, Token};
use mex_lang::model::{
    ItemType, ModelDefinition, ModelParam, ModelParamDefinition, RecordItem, TupleItem,
};
use mex_lang::render_to_string;
use mex_lang::scope::Scope;
use mex_lang::source::Source;
use mex_lang::string_render::StringRender;
use mex_lang::transform::{MexLangTransformer, Target, TextToken};

fn name(s: &str) -> Id {
    Id::Name(s.to_string())
}

fn named_type(s: &str) -> ItemType {
    ItemType::Model(name(s), vec![])
}

#[test]
fn tokenize_keywords_and_punctuation() {
    let tokens = tokenize("model Point()");
    assert_eq!(
        tokens,
        vec![
            Token::KeywordModel,
            Token::Identifier("Point".to_string()),
            Token::LParen,
            Token::RParen,
        ]
    );
}

#[test]
fn tokenize_skips_comments_and_whitespace() {
    let tokens = tokenize("scalar a; // trailing words\n\tscalar b;");
    assert_eq!(
        tokens,
        vec![
            Token::KeywordScalar,
            Token::Identifier("a".to_string()),
            Token::Semicolon,
            Token::KeywordScalar,
            Token::Identifier("b".to_string()),
            Token::Semicolon,
        ]
    );
}

#[test]
fn tokenize_spread_and_number() {
    let tokens = tokenize("... 42");
    assert_eq!(tokens, vec![Token::Spread, Token::Number("42".to_string())]);
}

#[test]
fn tokenize_unknown_character_becomes_error_token() {
    let tokens = tokenize("@");
    assert_eq!(tokens, vec![Token::Error(LexicalError::InvalidToken)]);
}

#[test]
fn tokenize_leading_zero_is_no_number() {
    // a numeric literal never starts with zero
    let tokens = tokenize("0");
    assert_eq!(tokens, vec![Token::Error(LexicalError::InvalidToken)]);
}

#[test]
fn tokenize_keyword_prefix_is_an_identifier() {
    let tokens = tokenize("packages");
    assert_eq!(tokens, vec![Token::Identifier("packages".to_string())]);
}

#[test]
fn add_space_appends_to_containers_only() {
    let mut global = Scope::Global(vec![]);
    global.add_space(Scope::Model(ModelDefinition::Scalar(name("a"))));
    assert_eq!(
        global,
        Scope::Global(vec![Scope::Model(ModelDefinition::Scalar(name("a")))])
    );

    let mut leaf = Scope::Model(ModelDefinition::Scalar(name("a")));
    leaf.add_space(Scope::Model(ModelDefinition::Scalar(name("b"))));
    assert_eq!(leaf, Scope::Model(ModelDefinition::Scalar(name("a"))));
}

#[test]
fn transformer_emits_scalar_tokens() {
    let tree = Scope::Model(ModelDefinition::Scalar(name("s1")));
    let transformer = MexLangTransformer::new();
    let tokens = transformer.apply(&tree, false);
    assert_eq!(
        tokens,
        vec![
            TextToken::LineIndent,
            TextToken::Text("scalar".to_string()),
            TextToken::Space,
            TextToken::Text("s1".to_string()),
            TextToken::Text(";".to_string()),
            TextToken::NewLine,
        ]
    );
}

struct CollectingSink {
    seen: Vec<TextToken>,
}

impl Target<TextToken> for CollectingSink {
    fn render(&mut self, token: TextToken) {
        self.seen.push(token);
    }
}

#[test]
fn apply_to_feeds_every_token_to_the_sink() {
    let tree = Scope::Model(ModelDefinition::Scalar(name("s1")));
    let expected = MexLangTransformer::new().apply(&tree, false);
    let mut sink = CollectingSink { seen: vec![] };
    MexLangTransformer::new().apply_to(&tree, false, &mut sink);
    assert_eq!(sink.seen, expected);
}

#[test]
fn string_render_suppresses_space_after_non_text() {
    let mut sink = StringRender::new();
    sink.push_token(TextToken::Space);
    sink.push_token(TextToken::Text("a".to_string()));
    sink.push_token(TextToken::Space);
    sink.push_token(TextToken::Text("b".to_string()));
    sink.push_token(TextToken::NewLine);
    assert_eq!(sink.as_string(4), "a b");
}

#[test]
fn string_render_drops_empty_flushes() {
    let mut sink = StringRender::new();
    sink.push_token(TextToken::Text("x".to_string()));
    sink.push_token(TextToken::NewLine);
    sink.push_token(TextToken::NewLine);
    sink.push_token(TextToken::Text("y".to_string()));
    sink.push_token(TextToken::NewLine);
    assert_eq!(sink.as_string(4), "x\ny");
}

#[test]
fn console_render_emits_breaks_and_reindents() {
    let mut console = ConsoleRender::new(4);
    assert_eq!(console.push_token(TextToken::Text("a".to_string())), "a");
    assert_eq!(console.push_token(TextToken::Space), " ");
    assert_eq!(console.push_token(TextToken::IncIndent), "");
    assert_eq!(console.push_token(TextToken::Text("b".to_string())), "\r    b");
    assert_eq!(console.push_token(TextToken::NewLine), "\n    ");
    assert_eq!(console.push_token(TextToken::DecIndent), "");
    assert_eq!(console.push_token(TextToken::Text("c".to_string())), "\rc");
}

#[test]
fn generic_parameters_render_in_angle_brackets() {
    let def = ModelDefinition::Record(
        name("Holder"),
        vec![RecordItem::Item(name("x"), named_type("T"))],
        vec![ModelParamDefinition::Generic { id: name("T"), constraint_type: None }],
    );
    let tree = Scope::Global(vec![Scope::Model(def)]);
    assert_eq!(render_to_string(&tree, false, 4), "model Holder<T> {\n    x: T\n}");
}

#[test]
fn declared_parameters_render_with_constraints_and_defaults() {
    let def = ModelDefinition::Record(
        name("M"),
        vec![],
        vec![
            ModelParamDefinition::Generic {
                id: name("T"),
                constraint_type: Some(named_type("Ord")),
            },
            ModelParamDefinition::Metadata {
                id: name("size"),
                type_id: named_type("Int"),
                def_value: Some(Literal::Number("3".to_string())),
            },
        ],
    );
    let tree = Scope::Global(vec![Scope::Model(def)]);
    assert_eq!(render_to_string(&tree, false, 4), "model M<T:Ord>[size:Int=3] {\n}");
}

#[test]
fn supplied_parameters_render_after_the_type_name() {
    let used = ItemType::Model(
        name("Arr"),
        vec![
            ModelParam::Generic(named_type("Int")),
            ModelParam::Metadata(name("size"), Literal::Number("10".to_string())),
        ],
    );
    let def = ModelDefinition::Tuple(name("V"), vec![TupleItem::Item(used)], vec![]);
    let tree = Scope::Global(vec![Scope::Model(def)]);
    assert_eq!(render_to_string(&tree, false, 4), "model V(Arr<Int>[size=10])");
}

#[test]
fn alias_renders_with_terminating_semicolon() {
    let def = ModelDefinition::Alias(name("Meters"), vec![], Box::new(named_type("Int")));
    let tree = Scope::Global(vec![Scope::Model(def)]);
    assert_eq!(render_to_string(&tree, false, 4), "model Meters = Int;");
}

#[test]
fn source_name_is_the_file_stem() {
    assert_eq!(
        Source::from_file("examples/empty_package.mex").get_name(),
        "empty_package"
    );
    assert_eq!(Source::from_file("a/b/c.tar.gz").get_name(), "c.tar");
    assert_eq!(Source::from_file("plain").get_name(), "plain");
    assert_eq!(Source::from_str("model X()").get_name(), "");
}

#[test]
fn indent_width_is_honored() {
    let (tree, root_form) = mex_lang::parser::make_ast("enum S {\n  A\n}");
    assert_eq!(render_to_string(&tree, root_form, 2), "enum S {\n  A\n}");
}
