//! The transformer: a pre-order visitor that turns a scope tree into a linear
//! sequence of layout-neutral format tokens, decoupling what to emit from how
//! a sink lays it out.
//!
//! The spec functions here define, for every construct, exactly which tokens
//! the visitor emits; the executable visitor is proved to produce them.

use vstd::prelude::*;
use crate::ast::{Id, IdView, Literal, LiteralView};
use crate::model::{
    ItemType, ItemTypeView, ModelDefinition, ModelDefinitionView, ModelParam, ModelParamView,
    ModelParamDefinition, ModelParamDefinitionView, RecordItem, RecordItemView, TupleItem,
    TupleItemView, EnumItem, EnumItemView, model_params_view, param_defs_view, record_items_view,
    tuple_items_view, enum_items_view, lemma_model_params_view_index, lemma_model_params_view_len,
    lemma_param_defs_view_index, lemma_param_defs_view_len, lemma_record_items_view_index,
    lemma_record_items_view_len, lemma_tuple_items_view_index, lemma_tuple_items_view_len,
    lemma_enum_items_view_index, lemma_enum_items_view_len,
};
use crate::scope::scopes_view;
use crate::scope::{RecoveredError, Scope, ScopeView};
use vstd::string::StringExecFns;

verus! {

/// A layout-neutral format token.
///
/// `NoOp` is a placeholder that only updates the sink's token memory; `Space`
/// emits one blank only if the immediately preceding emitted token was text;
/// `NewLine` flushes the current line; `LineIndent` forces a paragraph break
/// before a top-level construct's header; `IncIndent`/`DecIndent` adjust the
/// nesting level of the text emitted after them.
#[derive(Debug, PartialEq, Eq)]
pub enum TextToken {
    NoOp,
    Space,
    NewLine,
    LineIndent,
    IncIndent,
    DecIndent,
    Text(String),
}

/// Mathematical view of [`TextToken`].
pub enum TextTokenView {
    NoOp,
    Space,
    NewLine,
    LineIndent,
    IncIndent,
    DecIndent,
    Text(Seq<char>),
}

impl View for TextToken {
    type V = TextTokenView;

    open spec fn view(&self) -> TextTokenView {
        match self {
            TextToken::NoOp => TextTokenView::NoOp,
            TextToken::Space => TextTokenView::Space,
            TextToken::NewLine => TextTokenView::NewLine,
            TextToken::LineIndent => TextTokenView::LineIndent,
            TextToken::IncIndent => TextTokenView::IncIndent,
            TextToken::DecIndent => TextTokenView::DecIndent,
            TextToken::Text(s) => TextTokenView::Text(s@),
        }
    }
}

pub open spec fn text_tokens_view(s: Seq<TextToken>) -> Seq<TextTokenView>
    decreases s,
{
    if s.len() == 0 {
        Seq::empty()
    } else {
        text_tokens_view(s.drop_last()).push(s.last()@)
    }
}

impl Clone for TextToken {
    /// A clone carries the same view.
    fn clone(&self) -> (r: Self)
        ensures
            r@ == self@,
    {
        match self {
            TextToken::NoOp => TextToken::NoOp,
            TextToken::Space => TextToken::Space,
            TextToken::NewLine => TextToken::NewLine,
            TextToken::LineIndent => TextToken::LineIndent,
            TextToken::IncIndent => TextToken::IncIndent,
            TextToken::DecIndent => TextToken::DecIndent,
            TextToken::Text(s) => TextToken::Text(s.clone()),
        }
    }
}

pub proof fn lemma_text_tokens_view_len(s: Seq<TextToken>)
    ensures
        text_tokens_view(s).len() == s.len(),
    decreases s,
{
    if s.len() > 0 {
        lemma_text_tokens_view_len(s.drop_last());
    }
}

/// Viewing a token sequence is pointwise.
pub proof fn lemma_text_tokens_view_index(s: Seq<TextToken>, i: int)
    requires
        0 <= i < s.len(),
    ensures
        text_tokens_view(s).len() == s.len(),
        text_tokens_view(s)[i] == s[i]@,
    decreases s,
{
    lemma_text_tokens_view_len(s);
    if i < s.len() - 1 {
        assert(s.drop_last()[i] == s[i]);
        lemma_text_tokens_view_index(s.drop_last(), i);
    } else {
        lemma_text_tokens_view_len(s.drop_last());
    }
}

/// Emission concatenates over sibling lists.
pub proof fn lemma_scopes_tokens_concat(a: Seq<ScopeView>, b: Seq<ScopeView>, is_root: bool)
    ensures
        scopes_tokens(a + b, is_root) == scopes_tokens(a, is_root) + scopes_tokens(b, is_root),
    decreases b,
{
    if b.len() == 0 {
        assert(a + b =~= a);
        assert(scopes_tokens(a, is_root) + scopes_tokens(b, is_root) =~= scopes_tokens(
            a,
            is_root,
        ));
    } else {
        assert((a + b).drop_last() =~= a + b.drop_last());
        assert((a + b).last() == b.last());
        lemma_scopes_tokens_concat(a, b.drop_last(), is_root);
        assert(scopes_tokens(a, is_root) + scopes_tokens(b, is_root) =~= scopes_tokens(
            a,
            is_root,
        ) + scopes_tokens(b.drop_last(), is_root) + scope_tokens(b.last(), is_root));
    }
}

/// Appending a token to a token vector extends the viewed sequence by the
/// token's view.
pub proof fn lemma_text_tokens_view_push(s: Seq<TextToken>, x: TextToken)
    ensures
        text_tokens_view(s.push(x)) == text_tokens_view(s).push(x@),
{
    assert(s.push(x).drop_last() =~= s);
    assert(s.push(x).last() == x);
}

/// A sink consuming the format-token stream.
pub trait Target<Token> {
    fn render(&mut self, token: Token);
}

/// Shorthand for a text token in specifications.
pub open spec fn txt(s: Seq<char>) -> TextTokenView {
    TextTokenView::Text(s)
}

// ---------------------------------------------------------------------------
// Well-formedness: the renderable subset of the data model. The reserved
// variants (`Id::Index`, `Id::Branch`, standalone constraints, inline
// fragments/aliases/scalars) have no emission rule, mirroring that no grammar
// path produces them.
// ---------------------------------------------------------------------------

pub open spec fn wf_id(id: IdView) -> bool {
    id is Name || id is Inline
}

pub open spec fn wf_item_type(t: ItemTypeView) -> bool
    decreases t,
{
    match t {
        ItemTypeView::Model(id, params) => wf_id(id) && wf_model_params(params),
        ItemTypeView::Inline(def) => (def is Record || def is Tuple || def is Enum)
            && wf_model_def(def),
    }
}

pub open spec fn wf_model_param(p: ModelParamView) -> bool
    decreases p,
{
    match p {
        ModelParamView::Generic(t) => wf_item_type(t),
        ModelParamView::Metadata(id, _l) => wf_id(id),
    }
}

pub open spec fn wf_param_def(p: ModelParamDefinitionView) -> bool
    decreases p,
{
    match p {
        ModelParamDefinitionView::Generic { id, constraint_type } => wf_id(id)
            && match constraint_type {
            Some(t) => wf_item_type(t),
            None => true,
        },
        ModelParamDefinitionView::Metadata { id, type_id, def_value: _ } => wf_id(id)
            && wf_item_type(type_id),
        ModelParamDefinitionView::Constraint { .. } => true,
    }
}

pub open spec fn wf_record_item(it: RecordItemView) -> bool
    decreases it,
{
    match it {
        RecordItemView::Item(id, t) => wf_id(id) && wf_item_type(t),
        RecordItemView::Spread(t) => wf_item_type(t),
    }
}

pub open spec fn wf_tuple_item(it: TupleItemView) -> bool
    decreases it,
{
    match it {
        TupleItemView::Item(t) => wf_item_type(t),
        TupleItemView::NamedItem(id, t) => wf_id(id) && wf_item_type(t),
    }
}

pub open spec fn wf_enum_item(it: EnumItemView) -> bool
    decreases it,
{
    match it {
        EnumItemView::Item(id) => wf_id(id),
        EnumItemView::Record(id, t) => wf_id(id) && wf_item_type(t),
        EnumItemView::Tuple(id, t) => wf_id(id) && wf_item_type(t),
        EnumItemView::Enum(id, t) => wf_id(id) && wf_item_type(t),
    }
}


pub open spec fn wf_model_params(s: Seq<ModelParamView>) -> bool
    decreases s,
{
    forall|i: int| 0 <= i < s.len() ==> wf_model_param(#[trigger] s[i])
}

pub open spec fn wf_param_defs(s: Seq<ModelParamDefinitionView>) -> bool
    decreases s,
{
    forall|i: int| 0 <= i < s.len() ==> wf_param_def(#[trigger] s[i])
}

pub open spec fn wf_record_items(s: Seq<RecordItemView>) -> bool
    decreases s,
{
    forall|i: int| 0 <= i < s.len() ==> wf_record_item(#[trigger] s[i])
}

pub open spec fn wf_tuple_items(s: Seq<TupleItemView>) -> bool
    decreases s,
{
    forall|i: int| 0 <= i < s.len() ==> wf_tuple_item(#[trigger] s[i])
}

pub open spec fn wf_enum_items(s: Seq<EnumItemView>) -> bool
    decreases s,
{
    forall|i: int| 0 <= i < s.len() ==> wf_enum_item(#[trigger] s[i])
}

pub open spec fn wf_model_def(d: ModelDefinitionView) -> bool
    decreases d,
{
    match d {
        ModelDefinitionView::Fragment(id, items, params) => wf_id(id) && wf_record_items(items)
            && wf_param_defs(params),
        ModelDefinitionView::Record(id, items, params) => wf_id(id) && wf_record_items(items)
            && wf_param_defs(params),
        ModelDefinitionView::Tuple(id, items, params) => wf_id(id) && wf_tuple_items(items)
            && wf_param_defs(params),
        ModelDefinitionView::Enum(id, items, params) => wf_id(id) && wf_enum_items(items)
            && wf_param_defs(params),
        ModelDefinitionView::Alias(id, params, t) => wf_id(id) && wf_param_defs(params)
            && wf_item_type(*t),
        ModelDefinitionView::Scalar(id) => wf_id(id),
    }
}

pub open spec fn wf_scope(s: ScopeView) -> bool
    decreases s,
{
    match s {
        ScopeView::Global(items) => wf_scopes(items),
        ScopeView::Package(id, items) => wf_id(id) && wf_scopes(items),
        ScopeView::Model(def) => wf_model_def(def),
        ScopeView::Error(_) => true,
    }
}

pub open spec fn wf_scopes(s: Seq<ScopeView>) -> bool
    decreases s,
{
    forall|i: int| 0 <= i < s.len() ==> wf_scope(#[trigger] s[i])
}

// ---------------------------------------------------------------------------
// Emission rules: the exact token sequence of every construct.
// ---------------------------------------------------------------------------

/// A name renders as its text; an anonymous identity renders as a placeholder
/// token, so that a following `Space` is suppressed.
pub open spec fn id_tokens(id: IdView) -> Seq<TextTokenView> {
    match id {
        IdView::Name(s) => seq![txt(s)],
        IdView::Inline => seq![TextTokenView::NoOp],
        _ => Seq::empty(),
    }
}

pub open spec fn literal_tokens(l: LiteralView) -> Seq<TextTokenView> {
    match l {
        LiteralView::Text(s) => seq![txt(s)],
        LiteralView::Number(s) => seq![txt(s)],
    }
}

pub open spec fn count_generics(params: Seq<ModelParamView>) -> nat
    decreases params,
{
    if params.len() == 0 {
        0
    } else {
        count_generics(params.drop_last()) + match params.last() {
            ModelParamView::Generic(_) => 1nat,
            _ => 0nat,
        }
    }
}

pub open spec fn count_metadata(params: Seq<ModelParamView>) -> nat
    decreases params,
{
    if params.len() == 0 {
        0
    } else {
        count_metadata(params.drop_last()) + match params.last() {
            ModelParamView::Metadata(_, _) => 1nat,
            _ => 0nat,
        }
    }
}

/// The comma-joined generic arguments of a supplied parameter list, without
/// the enclosing angle brackets.
pub open spec fn generics_tokens(params: Seq<ModelParamView>) -> Seq<TextTokenView>
    decreases params, 1int,
{
    if params.len() == 0 {
        Seq::empty()
    } else {
        match params.last() {
            ModelParamView::Generic(t) => generics_tokens(params.drop_last()) + (
            if count_generics(params.drop_last()) > 0 {
                seq![txt(","@)]
            } else {
                Seq::empty()
            }) + item_type_tokens(t),
            _ => generics_tokens(params.drop_last()),
        }
    }
}

/// The comma-joined `name=value` metadata arguments of a supplied parameter
/// list, without the enclosing square brackets.
pub open spec fn metadata_tokens(params: Seq<ModelParamView>) -> Seq<TextTokenView>
    decreases params, 1int,
{
    if params.len() == 0 {
        Seq::empty()
    } else {
        match params.last() {
            ModelParamView::Metadata(id, l) => metadata_tokens(params.drop_last()) + (
            if count_metadata(params.drop_last()) > 0 {
                seq![txt(","@)]
            } else {
                Seq::empty()
            }) + id_tokens(id) + seq![txt("="@)] + literal_tokens(l),
            _ => metadata_tokens(params.drop_last()),
        }
    }
}

/// Supplied parameters render as `<...>` for the generics followed by `[...]`
/// for the metadata, each bracket pair only when its class is non-empty.
pub open spec fn model_params_tokens(params: Seq<ModelParamView>) -> Seq<TextTokenView>
    decreases params, 2int,
{
    (if count_generics(params) > 0 {
        seq![txt("<"@)] + generics_tokens(params) + seq![txt(">"@)]
    } else {
        Seq::empty()
    }) + (if count_metadata(params) > 0 {
        seq![txt("["@)] + metadata_tokens(params) + seq![txt("]"@)]
    } else {
        Seq::empty()
    })
}

pub open spec fn count_generic_defs(params: Seq<ModelParamDefinitionView>) -> nat
    decreases params,
{
    if params.len() == 0 {
        0
    } else {
        count_generic_defs(params.drop_last()) + match params.last() {
            ModelParamDefinitionView::Generic { .. } => 1nat,
            _ => 0nat,
        }
    }
}

pub open spec fn count_metadata_defs(params: Seq<ModelParamDefinitionView>) -> nat
    decreases params,
{
    if params.len() == 0 {
        0
    } else {
        count_metadata_defs(params.drop_last()) + match params.last() {
            ModelParamDefinitionView::Metadata { .. } => 1nat,
            _ => 0nat,
        }
    }
}

/// The comma-joined declared generic parameters, each with its optional
/// `:`-separated constraint, without the enclosing angle brackets.
pub open spec fn generic_defs_tokens(params: Seq<ModelParamDefinitionView>) -> Seq<TextTokenView>
    decreases params, 1int,
{
    if params.len() == 0 {
        Seq::empty()
    } else {
        match params.last() {
            ModelParamDefinitionView::Generic { id, constraint_type } => generic_defs_tokens(
                params.drop_last(),
            ) + (if count_generic_defs(params.drop_last()) > 0 {
                seq![txt(","@)]
            } else {
                Seq::empty()
            }) + id_tokens(id) + (match constraint_type {
                Some(t) => seq![txt(":"@)] + item_type_tokens(t),
                None => Seq::empty(),
            }),
            _ => generic_defs_tokens(params.drop_last()),
        }
    }
}

/// The comma-joined declared metadata parameters, each as `name:TYPE` with an
/// optional `=`-separated default, without the enclosing square brackets.
pub open spec fn metadata_defs_tokens(params: Seq<ModelParamDefinitionView>) -> Seq<TextTokenView>
    decreases params, 1int,
{
    if params.len() == 0 {
        Seq::empty()
    } else {
        match params.last() {
            ModelParamDefinitionView::Metadata { id, type_id, def_value } => metadata_defs_tokens(
                params.drop_last(),
            ) + (if count_metadata_defs(params.drop_last()) > 0 {
                seq![txt(","@)]
            } else {
                Seq::empty()
            }) + id_tokens(id) + seq![txt(":"@)] + item_type_tokens(type_id) + (match def_value {
                Some(l) => seq![txt("="@)] + literal_tokens(l),
                None => Seq::empty(),
            }),
            _ => metadata_defs_tokens(params.drop_last()),
        }
    }
}

/// Declared parameters render as `<...>` then `[...]`, each bracket pair only
/// when its class is non-empty; reserved standalone constraints render as
/// nothing.
pub open spec fn params_def_tokens(params: Seq<ModelParamDefinitionView>) -> Seq<TextTokenView>
    decreases params, 2int,
{
    (if count_generic_defs(params) > 0 {
        seq![txt("<"@)] + generic_defs_tokens(params) + seq![txt(">"@)]
    } else {
        Seq::empty()
    }) + (if count_metadata_defs(params) > 0 {
        seq![txt("["@)] + metadata_defs_tokens(params) + seq![txt("]"@)]
    } else {
        Seq::empty()
    })
}

/// A type reference renders as its name and supplied parameters; an anonymous
/// definition renders as the body of its record, tuple, or enum shape.
pub open spec fn item_type_tokens(t: ItemTypeView) -> Seq<TextTokenView>
    decreases t, 0int,
{
    match t {
        ItemTypeView::Model(id, params) => id_tokens(id) + model_params_tokens(params),
        ItemTypeView::Inline(def) => match def {
            ModelDefinitionView::Record(id, items, params) => id_tokens(id) + params_def_tokens(
                params,
            ) + seq![
                TextTokenView::Space,
                txt("{"@),
                TextTokenView::NewLine,
                TextTokenView::IncIndent,
            ] + record_items_tokens(items) + seq![
                TextTokenView::DecIndent,
                txt("}"@),
                TextTokenView::NewLine,
            ],
            ModelDefinitionView::Tuple(id, items, params) => id_tokens(id) + params_def_tokens(
                params,
            ) + seq![txt("("@)] + tuple_items_tokens(items) + seq![txt(")"@)],
            ModelDefinitionView::Enum(id, items, params) => id_tokens(id) + params_def_tokens(
                params,
            ) + seq![
                TextTokenView::Space,
                txt("{"@),
                TextTokenView::NewLine,
                TextTokenView::IncIndent,
            ] + enum_items_tokens(items) + seq![
                TextTokenView::DecIndent,
                txt("}"@),
                TextTokenView::NewLine,
            ],
            _ => Seq::empty(),
        },
    }
}

/// An anonymous definition's tokens agree with the body combinators below.
pub proof fn lemma_inline_item_type_tokens(def: ModelDefinitionView)
    ensures
        item_type_tokens(ItemTypeView::Inline(def)) == match def {
            ModelDefinitionView::Record(id, items, params) => record_model_tokens(
                id,
                items,
                params,
            ),
            ModelDefinitionView::Tuple(id, items, params) => tuple_model_tokens(id, items, params),
            ModelDefinitionView::Enum(id, items, params) => enum_model_tokens(id, items, params),
            _ => Seq::<TextTokenView>::empty(),
        },
{
}

/// `name: type`, or `... type` for a spread; one item per line.
pub open spec fn record_item_tokens(it: RecordItemView) -> Seq<TextTokenView>
    decreases it, 0int,
{
    match it {
        RecordItemView::Item(id, t) => id_tokens(id) + seq![txt(": "@)] + item_type_tokens(t)
            + seq![TextTokenView::NewLine],
        RecordItemView::Spread(t) => seq![txt("... "@)] + item_type_tokens(t)
            + seq![TextTokenView::NewLine],
    }
}

pub open spec fn record_items_tokens(items: Seq<RecordItemView>) -> Seq<TextTokenView>
    decreases items, 0int,
{
    if items.len() == 0 {
        Seq::empty()
    } else {
        record_items_tokens(items.drop_last()) + record_item_tokens(items.last())
    }
}

/// A bare type, or `name: type`.
pub open spec fn tuple_item_tokens(it: TupleItemView) -> Seq<TextTokenView>
    decreases it, 0int,
{
    match it {
        TupleItemView::Item(t) => item_type_tokens(t),
        TupleItemView::NamedItem(id, t) => id_tokens(id) + seq![txt(": "@)] + item_type_tokens(t),
    }
}

/// Tuple items joined by `, `, strictly between items, never trailing.
pub open spec fn tuple_items_tokens(items: Seq<TupleItemView>) -> Seq<TextTokenView>
    decreases items, 0int,
{
    if items.len() == 0 {
        Seq::empty()
    } else {
        tuple_items_tokens(items.drop_last()) + (if items.len() > 1 {
            seq![txt(", "@)]
        } else {
            Seq::empty()
        }) + tuple_item_tokens(items.last())
    }
}

/// A variant renders its payload form inline after the variant name: nothing
/// for a unit variant, `{...}` for a record, `(...)` for a tuple, and
/// `enum {...}` for a nested enum.
pub open spec fn enum_item_tokens(it: EnumItemView) -> Seq<TextTokenView>
    decreases it, 0int,
{
    match it {
        EnumItemView::Item(id) => id_tokens(id) + seq![TextTokenView::NewLine],
        EnumItemView::Record(id, t) => id_tokens(id) + seq![TextTokenView::Space]
            + item_type_tokens(t),
        EnumItemView::Tuple(id, t) => id_tokens(id) + item_type_tokens(t)
            + seq![TextTokenView::NewLine],
        EnumItemView::Enum(id, t) => id_tokens(id) + seq![
            TextTokenView::Space,
            txt("enum"@),
            TextTokenView::Space,
        ] + item_type_tokens(t),
    }
}

pub open spec fn enum_items_tokens(items: Seq<EnumItemView>) -> Seq<TextTokenView>
    decreases items, 0int,
{
    if items.len() == 0 {
        Seq::empty()
    } else {
        enum_items_tokens(items.drop_last()) + enum_item_tokens(items.last())
    }
}

/// Record body: name, declared parameters, `{`, indented one-per-line items,
/// `}`.
pub open spec fn record_model_tokens(
    id: IdView,
    items: Seq<RecordItemView>,
    params: Seq<ModelParamDefinitionView>,
) -> Seq<TextTokenView> {
    id_tokens(id) + params_def_tokens(params) + seq![
        TextTokenView::Space,
        txt("{"@),
        TextTokenView::NewLine,
        TextTokenView::IncIndent,
    ] + record_items_tokens(items) + seq![TextTokenView::DecIndent, txt("}"@), TextTokenView::NewLine]
}

/// Tuple body: name, declared parameters, `(`, comma-joined items with no
/// trailing separator, `)`.
pub open spec fn tuple_model_tokens(
    id: IdView,
    items: Seq<TupleItemView>,
    params: Seq<ModelParamDefinitionView>,
) -> Seq<TextTokenView> {
    id_tokens(id) + params_def_tokens(params) + seq![txt("("@)] + tuple_items_tokens(items) + seq![
        txt(")"@),
    ]
}

/// Enum body: name, declared parameters, `{`, indented variant list, `}`.
pub open spec fn enum_model_tokens(
    id: IdView,
    items: Seq<EnumItemView>,
    params: Seq<ModelParamDefinitionView>,
) -> Seq<TextTokenView> {
    id_tokens(id) + params_def_tokens(params) + seq![
        TextTokenView::Space,
        txt("{"@),
        TextTokenView::NewLine,
        TextTokenView::IncIndent,
    ] + enum_items_tokens(items) + seq![TextTokenView::DecIndent, txt("}"@), TextTokenView::NewLine]
}

/// The paragraph break and keyword opening a top-level construct's header.
pub open spec fn header_model_tokens(keyword: Seq<char>) -> Seq<TextTokenView> {
    seq![TextTokenView::LineIndent, txt(keyword), TextTokenView::Space]
}

/// A model declaration: header keyword (`model`, `fragment`, `enum`, or
/// `scalar`), then the shape's body.
pub open spec fn model_tokens(def: ModelDefinitionView) -> Seq<TextTokenView>
    decreases def,
{
    match def {
        ModelDefinitionView::Scalar(id) => header_model_tokens("scalar"@) + id_tokens(id) + seq![
            txt(";"@),
            TextTokenView::NewLine,
        ],
        ModelDefinitionView::Record(id, items, params) => header_model_tokens("model"@)
            + record_model_tokens(id, items, params),
        ModelDefinitionView::Fragment(id, items, params) => header_model_tokens("fragment"@)
            + record_model_tokens(id, items, params),
        ModelDefinitionView::Enum(id, items, params) => header_model_tokens("enum"@)
            + enum_model_tokens(id, items, params),
        ModelDefinitionView::Tuple(id, items, params) => header_model_tokens("model"@)
            + tuple_model_tokens(id, items, params) + seq![TextTokenView::NewLine],
        ModelDefinitionView::Alias(id, params, t) => header_model_tokens("model"@) + id_tokens(id)
            + params_def_tokens(params) + seq![TextTokenView::Space, txt("= "@)] + item_type_tokens(
            *t,
        ) + seq![txt(";"@), TextTokenView::NewLine],
    }
}

/// An error leaf renders as a single diagnostic line.
pub open spec fn error_tokens(description: Seq<char>) -> Seq<TextTokenView> {
    seq![TextTokenView::LineIndent, txt("error: "@ + description), TextTokenView::NewLine]
}

/// A package mounted at the outermost call renders as `package NAME;` with no
/// braces, its body following unindented; the same package at non-root
/// position renders as `package NAME { ... }` with indented body. The choice
/// is purely positional, never stored on the node.
pub open spec fn scope_tokens(s: ScopeView, is_root: bool) -> Seq<TextTokenView>
    decreases s,
{
    match s {
        ScopeView::Global(items) => scopes_tokens(items, is_root),
        ScopeView::Package(id, items) => if is_root {
            seq![txt("package"@), TextTokenView::Space] + id_tokens(id) + seq![
                txt(";"@),
                TextTokenView::NewLine,
            ] + scopes_tokens(items, false)
        } else {
            header_model_tokens("package"@) + id_tokens(id) + seq![
                txt(" {"@),
                TextTokenView::NewLine,
                TextTokenView::IncIndent,
            ] + scopes_tokens(items, false) + seq![
                TextTokenView::DecIndent,
                txt("}"@),
                TextTokenView::NewLine,
            ]
        },
        ScopeView::Model(def) => model_tokens(def),
        ScopeView::Error(description) => error_tokens(description),
    }
}

pub open spec fn scopes_tokens(items: Seq<ScopeView>, is_root: bool) -> Seq<TextTokenView>
    decreases items,
{
    if items.len() == 0 {
        Seq::empty()
    } else {
        scopes_tokens(items.drop_last(), is_root) + scope_tokens(items.last(), is_root)
    }
}

// ---------------------------------------------------------------------------
// The executable visitor.
// ---------------------------------------------------------------------------

/// The language's transformer: accumulates the format-token sequence of the
/// tree it visits.
pub struct MexLangTransformer {
    tokens: Vec<TextToken>,
}

impl View for MexLangTransformer {
    type V = Seq<TextTokenView>;

    closed spec fn view(&self) -> Seq<TextTokenView> {
        text_tokens_view(self.tokens@)
    }
}

impl MexLangTransformer {
    /// A transformer with an empty token buffer.
    pub fn new() -> (r: Self)
        ensures
            r@ == Seq::<TextTokenView>::empty(),
    {
        MexLangTransformer { tokens: Vec::new() }
    }

    /// Appends one token to the buffer.
    pub fn render(&mut self, token: TextToken)
        ensures
            final(self)@ == old(self)@.push(token@),
    {
        let ghost before = self.tokens@;
        let ghost t = token;
        self.tokens.push(token);
        proof {
            lemma_text_tokens_view_push(before, t);
        }
    }

    /// Emits an identity: its text, or a placeholder for an anonymous one.
    pub fn visit_id(&mut self, id: &Id)
        requires
            wf_id(id@),
        ensures
            final(self)@ == old(self)@ + id_tokens(id@),
    {
        match id {
            Id::Name(s) => {
                let text = s.clone();
                self.render(TextToken::Text(text));
            },
            _ => {
                self.render(TextToken::NoOp);
            },
        }
        assert(self@ =~= old(self)@ + id_tokens(id@));
    }

    /// Emits a literal's text.
    pub fn visit_literal(&mut self, literal: &Literal)
        ensures
            final(self)@ == old(self)@ + literal_tokens(literal@),
    {
        match literal {
            Literal::Text(s) => {
                let text = s.clone();
                self.render(TextToken::Text(text));
            },
            Literal::Number(s) => {
                let text = s.clone();
                self.render(TextToken::Text(text));
            },
        }
        assert(self@ =~= old(self)@ + literal_tokens(literal@));
    }

    /// Emits the paragraph break and keyword opening a header.
    pub fn visit_header_model(&mut self, keyword: &str)
        ensures
            final(self)@ == old(self)@ + header_model_tokens(keyword@),
    {
        self.render(TextToken::LineIndent);
        self.render(TextToken::Text(keyword.to_owned()));
        self.render(TextToken::Space);
        assert(self@ =~= old(self)@ + header_model_tokens(keyword@));
    }

    /// Emits `scalar NAME;` on its own line.
    pub fn visit_scalar(&mut self, id: &Id)
        requires
            wf_id(id@),
        ensures
            final(self)@ == old(self)@ + model_tokens(ModelDefinitionView::Scalar(id@)),
    {
        self.visit_header_model("scalar");
        self.visit_id(id);
        self.render(TextToken::Text(";".to_owned()));
        self.render(TextToken::NewLine);
        assert(self@ =~= old(self)@ + model_tokens(ModelDefinitionView::Scalar(id@)));
    }

    /// Emits the supplied parameters of a type reference: `<...>` for the
    /// generic arguments, then `[...]` for the metadata arguments, each
    /// bracket pair only when its class is non-empty.
    #[verifier::loop_isolation(false)]
    #[verifier::rlimit(50)]
    pub fn visit_model_params(&mut self, params: &Vec<ModelParam>)
        requires
            wf_model_params(model_params_view(params@)),
        ensures
            final(self)@ == old(self)@ + model_params_tokens(model_params_view(params@)),
        decreases params@,
    {
        let ghost pv = model_params_view(params@);
        proof {
            lemma_model_params_view_len(params@);
        }
        let mut ngen: usize = 0;
        let mut nmeta: usize = 0;
        let mut i: usize = 0;
        while i < params.len()
            invariant
                i <= params.len(),
                pv == model_params_view(params@),
                pv.len() == params@.len(),
                ngen == count_generics(pv.take(i as int)),
                nmeta == count_metadata(pv.take(i as int)),
                ngen <= i,
                nmeta <= i,
            decreases params.len() - i,
        {
            proof {
                lemma_model_params_view_index(params@, i as int);
                assert(pv.take(i as int + 1).drop_last() =~= pv.take(i as int));
                assert(pv.take(i as int + 1).last() == pv[i as int]);
            }
            match &params[i] {
                ModelParam::Generic(_) => {
                    ngen = ngen + 1;
                },
                ModelParam::Metadata(_, _) => {
                    nmeta = nmeta + 1;
                },
            }
            i = i + 1;
        }
        proof {
            assert(pv.take(params@.len() as int) =~= pv);
        }
        let ghost start = self@;
        if ngen > 0 {
            self.render(TextToken::Text("<".to_owned()));
            let ghost base = self@;
            let mut cnt: usize = 0;
            let mut j: usize = 0;
            while j < params.len()
                invariant
                    j <= params.len(),
                    pv == model_params_view(params@),
                    pv.len() == params@.len(),
                    cnt == count_generics(pv.take(j as int)),
                    cnt <= j,
                    self@ == base + generics_tokens(pv.take(j as int)),
                    wf_model_params(pv),
                decreases params.len() - j,
            {
                proof {
                    lemma_model_params_view_index(params@, j as int);
                    assert(pv.take(j as int + 1).drop_last() =~= pv.take(j as int));
                    assert(pv.take(j as int + 1).last() == pv[j as int]);
                }
                match &params[j] {
                    ModelParam::Generic(t) => {
                        if cnt > 0 {
                            self.render(TextToken::Text(",".to_owned()));
                        }
                        assert(wf_model_param(pv[j as int]));
                        self.visit_item_type(t);
                        cnt = cnt + 1;
                        assert(self@ =~= base + generics_tokens(pv.take(j as int + 1)));
                    },
                    ModelParam::Metadata(_, _) => {
                        assert(self@ =~= base + generics_tokens(pv.take(j as int + 1)));
                    },
                }
                j = j + 1;
            }
            proof {
                assert(pv.take(params@.len() as int) =~= pv);
            }
            self.render(TextToken::Text(">".to_owned()));
        }
        assert(self@ =~= start + (if count_generics(pv) > 0 {
            seq![txt("<"@)] + generics_tokens(pv) + seq![txt(">"@)]
        } else {
            Seq::<TextTokenView>::empty()
        }));
        let ghost mid = self@;
        if nmeta > 0 {
            self.render(TextToken::Text("[".to_owned()));
            let ghost base = self@;
            let mut cnt: usize = 0;
            let mut j: usize = 0;
            while j < params.len()
                invariant
                    j <= params.len(),
                    pv == model_params_view(params@),
                    pv.len() == params@.len(),
                    cnt == count_metadata(pv.take(j as int)),
                    cnt <= j,
                    self@ == base + metadata_tokens(pv.take(j as int)),
                    wf_model_params(pv),
                decreases params.len() - j,
            {
                proof {
                    lemma_model_params_view_index(params@, j as int);
                    assert(pv.take(j as int + 1).drop_last() =~= pv.take(j as int));
                    assert(pv.take(j as int + 1).last() == pv[j as int]);
                }
                match &params[j] {
                    ModelParam::Metadata(id, value) => {
                        if cnt > 0 {
                            self.render(TextToken::Text(",".to_owned()));
                        }
                        assert(wf_model_param(pv[j as int]));
                        self.visit_id(id);
                        self.render(TextToken::Text("=".to_owned()));
                        self.visit_literal(value);
                        cnt = cnt + 1;
                        assert(self@ =~= base + metadata_tokens(pv.take(j as int + 1)));
                    },
                    ModelParam::Generic(_) => {
                        assert(self@ =~= base + metadata_tokens(pv.take(j as int + 1)));
                    },
                }
                j = j + 1;
            }
            proof {
                assert(pv.take(params@.len() as int) =~= pv);
            }
            self.render(TextToken::Text("]".to_owned()));
        }
        assert(self@ =~= mid + (if count_metadata(pv) > 0 {
            seq![txt("["@)] + metadata_tokens(pv) + seq![txt("]"@)]
        } else {
            Seq::<TextTokenView>::empty()
        }));
        assert(self@ =~= old(self)@ + model_params_tokens(pv));
    }

    /// Emits the declared parameters of a model: `<...>` for the generic
    /// parameters with their optional constraints, then `[...]` for the
    /// metadata parameters with their types and optional defaults; reserved
    /// standalone constraints emit nothing.
    #[verifier::loop_isolation(false)]
    #[verifier::rlimit(100)]
    pub fn visit_model_params_def(&mut self, params: &Vec<ModelParamDefinition>)
        requires
            wf_param_defs(param_defs_view(params@)),
        ensures
            final(self)@ == old(self)@ + params_def_tokens(param_defs_view(params@)),
        decreases params@,
    {
        let ghost pv = param_defs_view(params@);
        proof {
            lemma_param_defs_view_len(params@);
        }
        let mut ngen: usize = 0;
        let mut nmeta: usize = 0;
        let mut i: usize = 0;
        while i < params.len()
            invariant
                i <= params.len(),
                pv == param_defs_view(params@),
                pv.len() == params@.len(),
                ngen == count_generic_defs(pv.take(i as int)),
                nmeta == count_metadata_defs(pv.take(i as int)),
                ngen <= i,
                nmeta <= i,
            decreases params.len() - i,
        {
            proof {
                lemma_param_defs_view_index(params@, i as int);
                assert(pv.take(i as int + 1).drop_last() =~= pv.take(i as int));
                assert(pv.take(i as int + 1).last() == pv[i as int]);
            }
            match &params[i] {
                ModelParamDefinition::Generic { .. } => {
                    ngen = ngen + 1;
                },
                ModelParamDefinition::Metadata { .. } => {
                    nmeta = nmeta + 1;
                },
                ModelParamDefinition::Constraint { .. } => {},
            }
            i = i + 1;
        }
        proof {
            assert(pv.take(params@.len() as int) =~= pv);
        }
        let ghost start = self@;
        if ngen > 0 {
            self.render(TextToken::Text("<".to_owned()));
            let ghost base = self@;
            let mut cnt: usize = 0;
            let mut j: usize = 0;
            while j < params.len()
                invariant
                    j <= params.len(),
                    pv == param_defs_view(params@),
                    pv.len() == params@.len(),
                    cnt == count_generic_defs(pv.take(j as int)),
                    cnt <= j,
                    self@ == base + generic_defs_tokens(pv.take(j as int)),
                    wf_param_defs(pv),
                decreases params.len() - j,
            {
                proof {
                    lemma_param_defs_view_index(params@, j as int);
                    assert(pv.take(j as int + 1).drop_last() =~= pv.take(j as int));
                    assert(pv.take(j as int + 1).last() == pv[j as int]);
                }
                match &params[j] {
                    ModelParamDefinition::Generic { id, constraint_type } => {
                        if cnt > 0 {
                            self.render(TextToken::Text(",".to_owned()));
                        }
                        assert(wf_param_def(pv[j as int]));
                        self.visit_id(id);
                        match constraint_type {
                            Some(t) => {
                                self.render(TextToken::Text(":".to_owned()));
                                self.visit_item_type(t);
                            },
                            None => {},
                        }
                        cnt = cnt + 1;
                        assert(self@ =~= base + generic_defs_tokens(pv.take(j as int + 1)));
                    },
                    _ => {
                        assert(self@ =~= base + generic_defs_tokens(pv.take(j as int + 1)));
                    },
                }
                j = j + 1;
            }
            proof {
                assert(pv.take(params@.len() as int) =~= pv);
            }
            self.render(TextToken::Text(">".to_owned()));
        }
        assert(self@ =~= start + (if count_generic_defs(pv) > 0 {
            seq![txt("<"@)] + generic_defs_tokens(pv) + seq![txt(">"@)]
        } else {
            Seq::<TextTokenView>::empty()
        }));
        let ghost mid = self@;
        if nmeta > 0 {
            self.render(TextToken::Text("[".to_owned()));
            let ghost base = self@;
            let mut cnt: usize = 0;
            let mut j: usize = 0;
            while j < params.len()
                invariant
                    j <= params.len(),
                    pv == param_defs_view(params@),
                    pv.len() == params@.len(),
                    cnt == count_metadata_defs(pv.take(j as int)),
                    cnt <= j,
                    self@ == base + metadata_defs_tokens(pv.take(j as int)),
                    wf_param_defs(pv),
                decreases params.len() - j,
            {
                proof {
                    lemma_param_defs_view_index(params@, j as int);
                    assert(pv.take(j as int + 1).drop_last() =~= pv.take(j as int));
                    assert(pv.take(j as int + 1).last() == pv[j as int]);
                }
                match &params[j] {
                    ModelParamDefinition::Metadata { id, type_id, def_value } => {
                        if cnt > 0 {
                            self.render(TextToken::Text(",".to_owned()));
                        }
                        assert(wf_param_def(pv[j as int]));
                        self.visit_id(id);
                        self.render(TextToken::Text(":".to_owned()));
                        self.visit_item_type(type_id);
                        match def_value {
                            Some(l) => {
                                self.render(TextToken::Text("=".to_owned()));
                                self.visit_literal(l);
                            },
                            None => {},
                        }
                        cnt = cnt + 1;
                        assert(self@ =~= base + metadata_defs_tokens(pv.take(j as int + 1)));
                    },
                    _ => {
                        assert(self@ =~= base + metadata_defs_tokens(pv.take(j as int + 1)));
                    },
                }
                j = j + 1;
            }
            proof {
                assert(pv.take(params@.len() as int) =~= pv);
            }
            self.render(TextToken::Text("]".to_owned()));
        }
        assert(self@ =~= mid + (if count_metadata_defs(pv) > 0 {
            seq![txt("["@)] + metadata_defs_tokens(pv) + seq![txt("]"@)]
        } else {
            Seq::<TextTokenView>::empty()
        }));
        assert(self@ =~= old(self)@ + params_def_tokens(pv));
    }

    /// Emits a type reference: its name and supplied parameters, or the body
    /// of an anonymous record, tuple, or enum definition.
    pub fn visit_item_type(&mut self, item_type: &ItemType)
        requires
            wf_item_type(item_type@),
        ensures
            final(self)@ == old(self)@ + item_type_tokens(item_type@),
        decreases *item_type,
    {
        match item_type {
            ItemType::Model(id, params) => {
                proof {
                    assert(item_type@ == ItemTypeView::Model(id@, model_params_view(params@)));
                }
                self.visit_id(id);
                self.visit_model_params(params);
                assert(self@ =~= old(self)@ + item_type_tokens(item_type@));
            },
            ItemType::Inline(def) => {
                proof {
                    lemma_inline_item_type_tokens(def@);
                }
                match def {
                    ModelDefinition::Record(..) => {
                        self.visit_record_model(def);
                    },
                    ModelDefinition::Tuple(..) => {
                        self.visit_tuple_model(def);
                    },
                    ModelDefinition::Enum(..) => {
                        self.visit_enum_model(def);
                    },
                    _ => {
                        proof {
                            assert(false);
                        }
                    },
                }
            },
        }
    }

    /// Emits a record or fragment body: name, declared parameters, `{`,
    /// indented one-per-line items, `}`.
    #[verifier::loop_isolation(false)]
    #[verifier::rlimit(100)]
    pub fn visit_record_model(&mut self, def: &ModelDefinition)
        requires
            def@ is Record || def@ is Fragment,
            wf_model_def(def@),
        ensures
            final(self)@ == old(self)@ + match def@ {
                ModelDefinitionView::Record(id, items, params) => record_model_tokens(
                    id,
                    items,
                    params,
                ),
                ModelDefinitionView::Fragment(id, items, params) => record_model_tokens(
                    id,
                    items,
                    params,
                ),
                _ => Seq::<TextTokenView>::empty(),
            },
        decreases *def,
    {
        match def {
            ModelDefinition::Record(id, items, params) => {
                proof {
                    assert(def@ == ModelDefinitionView::Record(
                        id@,
                        record_items_view(items@),
                        param_defs_view(params@),
                    ));
                }
                self.visit_id(id);
                self.visit_model_params_def(params);
                self.render(TextToken::Space);
                self.render(TextToken::Text("{".to_owned()));
                self.render(TextToken::NewLine);
                self.render(TextToken::IncIndent);
                proof {
                    assert(decreases_to!(*def => def->Record_1));
                    assert(def->Record_1 == *items);
                    assert(decreases_to!(*items => items@));
                }
                self.visit_record_items(items);
                self.render(TextToken::DecIndent);
                self.render(TextToken::Text("}".to_owned()));
                self.render(TextToken::NewLine);
                assert(self@ =~= old(self)@ + record_model_tokens(
                    id@,
                    record_items_view(items@),
                    param_defs_view(params@),
                ));
            },
            ModelDefinition::Fragment(id, items, params) => {
                proof {
                    assert(def@ == ModelDefinitionView::Fragment(
                        id@,
                        record_items_view(items@),
                        param_defs_view(params@),
                    ));
                }
                self.visit_id(id);
                self.visit_model_params_def(params);
                self.render(TextToken::Space);
                self.render(TextToken::Text("{".to_owned()));
                self.render(TextToken::NewLine);
                self.render(TextToken::IncIndent);
                proof {
                    assert(decreases_to!(*def => def->Fragment_1));
                    assert(def->Fragment_1 == *items);
                    assert(decreases_to!(*items => items@));
                }
                self.visit_record_items(items);
                self.render(TextToken::DecIndent);
                self.render(TextToken::Text("}".to_owned()));
                self.render(TextToken::NewLine);
                assert(self@ =~= old(self)@ + record_model_tokens(
                    id@,
                    record_items_view(items@),
                    param_defs_view(params@),
                ));
            },
            _ => {
                proof {
                    assert(false);
                }
            },
        }
    }

    /// Emits a tuple body: name, declared parameters, `(`, comma-joined items
    /// with no trailing separator, `)`.
    #[verifier::loop_isolation(false)]
    #[verifier::rlimit(50)]
    pub fn visit_tuple_model(&mut self, def: &ModelDefinition)
        requires
            def@ is Tuple,
            wf_model_def(def@),
        ensures
            final(self)@ == old(self)@ + match def@ {
                ModelDefinitionView::Tuple(id, items, params) => tuple_model_tokens(
                    id,
                    items,
                    params,
                ),
                _ => Seq::<TextTokenView>::empty(),
            },
        decreases *def,
    {
        match def {
            ModelDefinition::Tuple(id, items, params) => {
                let ghost iv = tuple_items_view(items@);
                proof {
                    lemma_tuple_items_view_len(items@);
                    assert(def@ == ModelDefinitionView::Tuple(
                        id@,
                        tuple_items_view(items@),
                        param_defs_view(params@),
                    ));
                }
                self.visit_id(id);
                self.visit_model_params_def(params);
                self.render(TextToken::Text("(".to_owned()));
                let ghost base = self@;
                let mut i: usize = 0;
                while i < items.len()
                    invariant
                        i <= items.len(),
                        iv == tuple_items_view(items@),
                        iv.len() == items@.len(),
                        self@ == base + tuple_items_tokens(iv.take(i as int)),
                        wf_tuple_items(iv),
                    decreases items.len() - i,
                {
                    proof {
                        lemma_tuple_items_view_index(items@, i as int);
                        assert(iv.take(i as int + 1).drop_last() =~= iv.take(i as int));
                        assert(iv.take(i as int + 1).last() == iv[i as int]);
                        assert(decreases_to!(*def => def->Tuple_1));
                        assert(def->Tuple_1 == *items);
                        assert(decreases_to!(*items => items@));
                        assert(decreases_to!(items@ => items@[i as int]));
                    }
                    if i > 0 {
                        self.render(TextToken::Text(", ".to_owned()));
                    }
                    match &items[i] {
                        TupleItem::Item(type_id) => {
                            assert(tuple_item_tokens(iv[i as int]) == item_type_tokens(type_id@));
                            self.visit_item_type(type_id);
                        },
                        TupleItem::NamedItem(id2, type_id) => {
                            assert(wf_tuple_item(iv[i as int]));
                            assert(tuple_item_tokens(iv[i as int]) == id_tokens(id2@) + seq![
                                txt(": "@),
                            ] + item_type_tokens(type_id@));
                            self.visit_id(id2);
                            self.render(TextToken::Text(": ".to_owned()));
                            self.visit_item_type(type_id);
                        },
                    }
                    i = i + 1;
                    assert(self@ =~= base + tuple_items_tokens(iv.take(i as int)));
                }
                proof {
                    assert(iv.take(items@.len() as int) =~= iv);
                }
                self.render(TextToken::Text(")".to_owned()));
                proof {
                    lemma_tuple_items_view_len(items@);
                }
                assert(self@ =~= old(self)@ + tuple_model_tokens(
                    id@,
                    tuple_items_view(items@),
                    param_defs_view(params@),
                ));
            },
            _ => {
                proof {
                    assert(false);
                }
            },
        }
    }

    /// Emits an enum body: name, declared parameters, `{`, indented variant
    /// list, `}`.
    #[verifier::loop_isolation(false)]
    #[verifier::rlimit(50)]
    pub fn visit_enum_model(&mut self, def: &ModelDefinition)
        requires
            def@ is Enum,
            wf_model_def(def@),
        ensures
            final(self)@ == old(self)@ + match def@ {
                ModelDefinitionView::Enum(id, items, params) => enum_model_tokens(id, items, params),
                _ => Seq::<TextTokenView>::empty(),
            },
        decreases *def,
    {
        match def {
            ModelDefinition::Enum(id, items, params) => {
                let ghost iv = enum_items_view(items@);
                proof {
                    lemma_enum_items_view_len(items@);
                    assert(def@ == ModelDefinitionView::Enum(
                        id@,
                        enum_items_view(items@),
                        param_defs_view(params@),
                    ));
                }
                self.visit_id(id);
                self.visit_model_params_def(params);
                self.render(TextToken::Space);
                self.render(TextToken::Text("{".to_owned()));
                self.render(TextToken::NewLine);
                self.render(TextToken::IncIndent);
                let ghost base = self@;
                let mut i: usize = 0;
                while i < items.len()
                    invariant
                        i <= items.len(),
                        iv == enum_items_view(items@),
                        iv.len() == items@.len(),
                        self@ == base + enum_items_tokens(iv.take(i as int)),
                        wf_enum_items(iv),
                    decreases items.len() - i,
                {
                    proof {
                        lemma_enum_items_view_index(items@, i as int);
                        assert(iv.take(i as int + 1).drop_last() =~= iv.take(i as int));
                        assert(iv.take(i as int + 1).last() == iv[i as int]);
                        assert(decreases_to!(*def => def->Enum_1));
                        assert(def->Enum_1 == *items);
                        assert(decreases_to!(*items => items@));
                        assert(decreases_to!(items@ => items@[i as int]));
                    }
                    self.visit_enum_item(&items[i]);
                    i = i + 1;
                    assert(self@ =~= base + enum_items_tokens(iv.take(i as int)));
                }
                proof {
                    assert(iv.take(items@.len() as int) =~= iv);
                }
                self.render(TextToken::DecIndent);
                self.render(TextToken::Text("}".to_owned()));
                self.render(TextToken::NewLine);
                proof {
                    lemma_enum_items_view_len(items@);
                }
                assert(self@ =~= old(self)@ + enum_model_tokens(
                    id@,
                    enum_items_view(items@),
                    param_defs_view(params@),
                ));
            },
            _ => {
                proof {
                    assert(false);
                }
            },
        }
    }

    /// Emits the items of a record-shaped body, one per line, in order.
    #[verifier::loop_isolation(false)]
    fn visit_record_items(&mut self, items: &Vec<RecordItem>)
        requires
            wf_record_items(record_items_view(items@)),
        ensures
            final(self)@ == old(self)@ + record_items_tokens(record_items_view(items@)),
        decreases items@,
    {
        let ghost iv = record_items_view(items@);
        proof {
            lemma_record_items_view_len(items@);
        }
        let mut i: usize = 0;
        while i < items.len()
            invariant
                i <= items.len(),
                self@ == old(self)@ + record_items_tokens(iv.take(i as int)),
            decreases items.len() - i,
        {
            proof {
                lemma_record_items_view_index(items@, i as int);
                assert(iv.take(i as int + 1).drop_last() =~= iv.take(i as int));
                assert(iv.take(i as int + 1).last() == iv[i as int]);
                assert(decreases_to!(items@ => items@[i as int]));
            }
            self.visit_model_item(&items[i]);
            i = i + 1;
            assert(self@ =~= old(self)@ + record_items_tokens(iv.take(i as int)));
        }
        proof {
            assert(iv.take(items@.len() as int) =~= iv);
        }
    }

    /// Emits one record item: `name: type`, or `... type` for a spread, each
    /// on its own line.
    pub fn visit_model_item(&mut self, item: &RecordItem)
        requires
            wf_record_item(item@),
        ensures
            final(self)@ == old(self)@ + record_item_tokens(item@),
        decreases *item,
    {
        match item {
            RecordItem::Item(id, type_id) => {
                self.visit_id(id);
                self.render(TextToken::Text(": ".to_owned()));
                self.visit_item_type(type_id);
                self.render(TextToken::NewLine);
            },
            RecordItem::Spread(type_id) => {
                self.render(TextToken::Text("... ".to_owned()));
                self.visit_item_type(type_id);
                self.render(TextToken::NewLine);
            },
        }
        assert(self@ =~= old(self)@ + record_item_tokens(item@));
    }

    /// Emits one enum variant with its payload form inline after its name.
    pub fn visit_enum_item(&mut self, item: &EnumItem)
        requires
            wf_enum_item(item@),
        ensures
            final(self)@ == old(self)@ + enum_item_tokens(item@),
        decreases *item,
    {
        match item {
            EnumItem::Item(id) => {
                self.visit_id(id);
                self.render(TextToken::NewLine);
            },
            EnumItem::Record(id, type_id) => {
                self.visit_id(id);
                self.render(TextToken::Space);
                self.visit_item_type(type_id);
            },
            EnumItem::Tuple(id, type_id) => {
                self.visit_id(id);
                self.visit_item_type(type_id);
                self.render(TextToken::NewLine);
            },
            EnumItem::Enum(id, type_id) => {
                self.visit_id(id);
                self.render(TextToken::Space);
                self.render(TextToken::Text("enum".to_owned()));
                self.render(TextToken::Space);
                self.visit_item_type(type_id);
            },
        }
        assert(self@ =~= old(self)@ + enum_item_tokens(item@));
    }

    /// Emits a model declaration: its header keyword, then its shape's body.
    pub fn visit_model(&mut self, def: &ModelDefinition)
        requires
            wf_model_def(def@),
        ensures
            final(self)@ == old(self)@ + model_tokens(def@),
    {
        match def {
            ModelDefinition::Scalar(id) => {
                self.visit_scalar(id);
            },
            ModelDefinition::Record(..) => {
                self.visit_header_model("model");
                self.visit_record_model(def);
            },
            ModelDefinition::Fragment(..) => {
                self.visit_header_model("fragment");
                self.visit_record_model(def);
            },
            ModelDefinition::Enum(..) => {
                self.visit_header_model("enum");
                self.visit_enum_model(def);
            },
            ModelDefinition::Tuple(..) => {
                self.visit_header_model("model");
                self.visit_tuple_model(def);
                self.render(TextToken::NewLine);
            },
            ModelDefinition::Alias(id, params, item_type) => {
                proof {
                    assert(def@ == ModelDefinitionView::Alias(
                        id@,
                        param_defs_view(params@),
                        Box::new(crate::model::item_type_view(**item_type)),
                    ));
                }
                self.visit_header_model("model");
                self.visit_id(id);
                self.visit_model_params_def(params);
                self.render(TextToken::Space);
                self.render(TextToken::Text("= ".to_owned()));
                self.visit_item_type(item_type);
                self.render(TextToken::Text(";".to_owned()));
                self.render(TextToken::NewLine);
            },
        }
        assert(self@ =~= old(self)@ + model_tokens(def@));
    }

    /// Visits one scope node, dispatching on its kind.
    pub fn visit_scope(&mut self, item: &Scope, is_root: bool)
        requires
            wf_scope(item@),
        ensures
            final(self)@ == old(self)@ + scope_tokens(item@, is_root),
        decreases *item,
    {
        match item {
            Scope::Global(items) => {
                proof {
                    assert(item@ == ScopeView::Global(scopes_view(items@)));
                }
                self.visit_global(items, is_root);
            },
            Scope::Package(id, items) => {
                proof {
                    assert(item@ == ScopeView::Package(id@, scopes_view(items@)));
                }
                self.visit_package(id, items, is_root);
            },
            Scope::Model(def) => {
                self.visit_model(def);
            },
            Scope::Error(error) => {
                self.visit_error(error);
            },
        }
    }

    /// Visits the children of the top-level container in insertion order.
    #[verifier::loop_isolation(false)]
    pub fn visit_global(&mut self, items: &Vec<Scope>, is_root: bool)
        requires
            wf_scopes(scopes_view(items@)),
        ensures
            final(self)@ == old(self)@ + scopes_tokens(scopes_view(items@), is_root),
        decreases items@,
    {
        let ghost sv = scopes_view(items@);
        proof {
            crate::scope::lemma_scopes_view_len(items@);
        }
        let ghost base = self@;
        let mut i: usize = 0;
        while i < items.len()
            invariant
                i <= items.len(),
                sv == scopes_view(items@),
                sv.len() == items@.len(),
                self@ == base + scopes_tokens(sv.take(i as int), is_root),
                wf_scopes(sv),
            decreases items.len() - i,
        {
            proof {
                crate::scope::lemma_scopes_view_index(items@, i as int);
                assert(sv.take(i as int + 1).drop_last() =~= sv.take(i as int));
                assert(sv.take(i as int + 1).last() == sv[i as int]);
                assert(decreases_to!(items@ => items@[i as int]));
            }
            self.visit_scope(&items[i], is_root);
            i = i + 1;
            assert(self@ =~= base + scopes_tokens(sv.take(i as int), is_root));
        }
        proof {
            assert(sv.take(items@.len() as int) =~= sv);
        }
    }

    /// Emits a package: `package NAME;` followed by its unindented body at the
    /// outermost call, `package NAME { ... }` with indented body elsewhere.
    #[verifier::loop_isolation(false)]
    pub fn visit_package(&mut self, id: &Id, items: &Vec<Scope>, is_root: bool)
        requires
            wf_id(id@),
            wf_scopes(scopes_view(items@)),
        ensures
            final(self)@ == old(self)@ + scope_tokens(
                ScopeView::Package(id@, scopes_view(items@)),
                is_root,
            ),
        decreases items@,
    {
        let ghost sv = scopes_view(items@);
        proof {
            crate::scope::lemma_scopes_view_len(items@);
        }
        if is_root {
            self.render(TextToken::Text("package".to_owned()));
            self.render(TextToken::Space);
            self.visit_id(id);
            self.render(TextToken::Text(";".to_owned()));
            self.render(TextToken::NewLine);
        } else {
            self.visit_header_model("package");
            self.visit_id(id);
            self.render(TextToken::Text(" {".to_owned()));
            self.render(TextToken::NewLine);
            self.render(TextToken::IncIndent);
        }
        let ghost base = self@;
        let mut i: usize = 0;
        while i < items.len()
            invariant
                i <= items.len(),
                sv == scopes_view(items@),
                sv.len() == items@.len(),
                self@ == base + scopes_tokens(sv.take(i as int), false),
                wf_scopes(sv),
            decreases items.len() - i,
        {
            proof {
                crate::scope::lemma_scopes_view_index(items@, i as int);
                assert(sv.take(i as int + 1).drop_last() =~= sv.take(i as int));
                assert(sv.take(i as int + 1).last() == sv[i as int]);
                assert(decreases_to!(items@ => items@[i as int]));
            }
            self.visit_scope(&items[i], false);
            i = i + 1;
            assert(self@ =~= base + scopes_tokens(sv.take(i as int), false));
        }
        proof {
            assert(sv.take(items@.len() as int) =~= sv);
        }
        if !is_root {
            self.render(TextToken::DecIndent);
            self.render(TextToken::Text("}".to_owned()));
            self.render(TextToken::NewLine);
        }
        assert(self@ =~= old(self)@ + scope_tokens(
            ScopeView::Package(id@, scopes_view(items@)),
            is_root,
        ));
    }

    /// Visits the whole tree and hands back the accumulated token sequence.
    /// `is_root` says whether `scope` stands at the outermost call, which
    /// decides the rendering of a root-form package.
    pub fn apply(self, scope: &Scope, is_root: bool) -> (tokens: Vec<TextToken>)
        requires
            wf_scope(scope@),
        ensures
            text_tokens_view(tokens@) == self@ + scope_tokens(scope@, is_root),
    {
        let mut t = self;
        t.visit_scope(scope, is_root);
        t.tokens
    }

    /// Visits the whole tree and feeds the token sequence to a sink.
    pub fn apply_to<R: Target<TextToken>>(self, scope: &Scope, is_root: bool, render: &mut R)
        requires
            wf_scope(scope@),
    {
        let tokens = self.apply(scope, is_root);
        let mut i: usize = 0;
        while i < tokens.len()
            decreases tokens.len() - i,
        {
            render.render(tokens[i].clone());
            i = i + 1;
        }
    }

    /// Emits an error leaf as one diagnostic line.
    pub fn visit_error(&mut self, error: &RecoveredError)
        ensures
            final(self)@ == old(self)@ + error_tokens(error@),
    {
        self.render(TextToken::LineIndent);
        let mut text = "error: ".to_owned();
        text.append(error.description.as_str());
        self.render(TextToken::Text(text));
        self.render(TextToken::NewLine);
        assert(self@ =~= old(self)@ + error_tokens(error@));
    }
}

} // verus!
