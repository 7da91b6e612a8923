//! Model definitions: the closed set of node types describing records,
//! tuples, enums, fragments, aliases and scalars, their item kinds, and the
//! declared and supplied generic/metadata parameters.
//!
//! Every constructor is total: it never fails and performs no semantic
//! validation; omitted item or parameter lists default to empty lists.

use vstd::prelude::*;
use crate::ast::{Id, IdView, Literal, LiteralView};

verus! {

/// A type reference: a model named with optional generic/metadata arguments,
/// or an anonymous definition written directly where a type is expected.
#[derive(Debug, PartialEq, Eq)]
pub enum ItemType {
    Model(Id, Vec<ModelParam>),
    Inline(ModelDefinition),
}

/// A named generic bound. Reserved: no grammar path currently produces it.
#[derive(Debug, PartialEq, Eq)]
pub enum GenericConstraintDefinition {
    Contains(ItemType),
}

/// A declared parameter of a model: a generic type parameter with an optional
/// constraint, a named metadata constant with declared type and optional
/// default, or a reserved standalone constraint.
#[derive(Debug, PartialEq, Eq)]
pub enum ModelParamDefinition {
    Generic { id: Id, constraint_type: Option<ItemType> },
    Metadata { id: Id, type_id: ItemType, def_value: Option<Literal> },
    Constraint { id: Id, constraint: GenericConstraintDefinition },
}

/// A supplied parameter at a type-reference site: a generic type argument or
/// a named metadata value.
#[derive(Debug, PartialEq, Eq)]
pub enum ModelParam {
    Generic(ItemType),
    Metadata(Id, Literal),
}

/// An item of a record-shaped definition: a named field, or a spread that
/// structurally includes another record or fragment.
#[derive(Debug, PartialEq, Eq)]
pub enum RecordItem {
    Item(Id, ItemType),
    Spread(ItemType),
}

/// An item of a tuple-shaped definition: positional, or named.
#[derive(Debug, PartialEq, Eq)]
pub enum TupleItem {
    Item(ItemType),
    NamedItem(Id, ItemType),
}

/// A variant of an enum-shaped definition: a unit variant, or a variant with
/// a record, tuple, or nested enum payload.
#[derive(Debug, PartialEq, Eq)]
pub enum EnumItem {
    Item(Id),
    Record(Id, ItemType),
    Tuple(Id, ItemType),
    Enum(Id, ItemType),
}

/// The shape of a user-defined model.
#[derive(Debug, PartialEq, Eq)]
pub enum ModelDefinition {
    Fragment(Id, Vec<RecordItem>, Vec<ModelParamDefinition>),
    Record(Id, Vec<RecordItem>, Vec<ModelParamDefinition>),
    Tuple(Id, Vec<TupleItem>, Vec<ModelParamDefinition>),
    Enum(Id, Vec<EnumItem>, Vec<ModelParamDefinition>),
    Alias(Id, Vec<ModelParamDefinition>, Box<ItemType>),
    Scalar(Id),
}

/// Mathematical view of [`ItemType`].
pub enum ItemTypeView {
    Model(IdView, Seq<ModelParamView>),
    Inline(ModelDefinitionView),
}

/// Mathematical view of [`GenericConstraintDefinition`].
pub enum GenericConstraintDefinitionView {
    Contains(ItemTypeView),
}

/// Mathematical view of [`ModelParamDefinition`].
pub enum ModelParamDefinitionView {
    Generic { id: IdView, constraint_type: Option<ItemTypeView> },
    Metadata { id: IdView, type_id: ItemTypeView, def_value: Option<LiteralView> },
    Constraint { id: IdView, constraint: GenericConstraintDefinitionView },
}

/// Mathematical view of [`ModelParam`].
pub enum ModelParamView {
    Generic(ItemTypeView),
    Metadata(IdView, LiteralView),
}

/// Mathematical view of [`RecordItem`].
pub enum RecordItemView {
    Item(IdView, ItemTypeView),
    Spread(ItemTypeView),
}

/// Mathematical view of [`TupleItem`].
pub enum TupleItemView {
    Item(ItemTypeView),
    NamedItem(IdView, ItemTypeView),
}

/// Mathematical view of [`EnumItem`].
pub enum EnumItemView {
    Item(IdView),
    Record(IdView, ItemTypeView),
    Tuple(IdView, ItemTypeView),
    Enum(IdView, ItemTypeView),
}

/// Mathematical view of [`ModelDefinition`].
pub enum ModelDefinitionView {
    Fragment(IdView, Seq<RecordItemView>, Seq<ModelParamDefinitionView>),
    Record(IdView, Seq<RecordItemView>, Seq<ModelParamDefinitionView>),
    Tuple(IdView, Seq<TupleItemView>, Seq<ModelParamDefinitionView>),
    Enum(IdView, Seq<EnumItemView>, Seq<ModelParamDefinitionView>),
    Alias(IdView, Seq<ModelParamDefinitionView>, Box<ItemTypeView>),
    Scalar(IdView),
}

pub open spec fn item_type_view(t: ItemType) -> ItemTypeView
    decreases t,
{
    match t {
        ItemType::Model(id, params) => ItemTypeView::Model(id@, model_params_view(params@)),
        ItemType::Inline(def) => ItemTypeView::Inline(model_def_view(def)),
    }
}

pub open spec fn model_params_view(s: Seq<ModelParam>) -> Seq<ModelParamView>
    decreases s,
{
    if s.len() == 0 {
        Seq::empty()
    } else {
        model_params_view(s.drop_last()).push(model_param_view(s.last()))
    }
}

pub open spec fn model_param_view(p: ModelParam) -> ModelParamView
    decreases p,
{
    match p {
        ModelParam::Generic(t) => ModelParamView::Generic(item_type_view(t)),
        ModelParam::Metadata(id, l) => ModelParamView::Metadata(id@, l@),
    }
}

pub open spec fn constraint_view(c: GenericConstraintDefinition) -> GenericConstraintDefinitionView
    decreases c,
{
    match c {
        GenericConstraintDefinition::Contains(t) =>
            GenericConstraintDefinitionView::Contains(item_type_view(t)),
    }
}

pub open spec fn param_def_view(p: ModelParamDefinition) -> ModelParamDefinitionView
    decreases p,
{
    match p {
        ModelParamDefinition::Generic { id, constraint_type } => ModelParamDefinitionView::Generic {
            id: id@,
            constraint_type: match constraint_type {
                Some(t) => Some(item_type_view(t)),
                None => None,
            },
        },
        ModelParamDefinition::Metadata { id, type_id, def_value } =>
            ModelParamDefinitionView::Metadata {
                id: id@,
                type_id: item_type_view(type_id),
                def_value: match def_value {
                    Some(l) => Some(l@),
                    None => None,
                },
            },
        ModelParamDefinition::Constraint { id, constraint } => ModelParamDefinitionView::Constraint {
            id: id@,
            constraint: constraint_view(constraint),
        },
    }
}

pub open spec fn param_defs_view(s: Seq<ModelParamDefinition>) -> Seq<ModelParamDefinitionView>
    decreases s,
{
    if s.len() == 0 {
        Seq::empty()
    } else {
        param_defs_view(s.drop_last()).push(param_def_view(s.last()))
    }
}

pub open spec fn record_item_view(it: RecordItem) -> RecordItemView
    decreases it,
{
    match it {
        RecordItem::Item(id, t) => RecordItemView::Item(id@, item_type_view(t)),
        RecordItem::Spread(t) => RecordItemView::Spread(item_type_view(t)),
    }
}

pub open spec fn record_items_view(s: Seq<RecordItem>) -> Seq<RecordItemView>
    decreases s,
{
    if s.len() == 0 {
        Seq::empty()
    } else {
        record_items_view(s.drop_last()).push(record_item_view(s.last()))
    }
}

pub open spec fn tuple_item_view(it: TupleItem) -> TupleItemView
    decreases it,
{
    match it {
        TupleItem::Item(t) => TupleItemView::Item(item_type_view(t)),
        TupleItem::NamedItem(id, t) => TupleItemView::NamedItem(id@, item_type_view(t)),
    }
}

pub open spec fn tuple_items_view(s: Seq<TupleItem>) -> Seq<TupleItemView>
    decreases s,
{
    if s.len() == 0 {
        Seq::empty()
    } else {
        tuple_items_view(s.drop_last()).push(tuple_item_view(s.last()))
    }
}

pub open spec fn enum_item_view(it: EnumItem) -> EnumItemView
    decreases it,
{
    match it {
        EnumItem::Item(id) => EnumItemView::Item(id@),
        EnumItem::Record(id, t) => EnumItemView::Record(id@, item_type_view(t)),
        EnumItem::Tuple(id, t) => EnumItemView::Tuple(id@, item_type_view(t)),
        EnumItem::Enum(id, t) => EnumItemView::Enum(id@, item_type_view(t)),
    }
}

pub open spec fn enum_items_view(s: Seq<EnumItem>) -> Seq<EnumItemView>
    decreases s,
{
    if s.len() == 0 {
        Seq::empty()
    } else {
        enum_items_view(s.drop_last()).push(enum_item_view(s.last()))
    }
}

pub open spec fn model_def_view(d: ModelDefinition) -> ModelDefinitionView
    decreases d,
{
    match d {
        ModelDefinition::Fragment(id, items, params) =>
            ModelDefinitionView::Fragment(id@, record_items_view(items@), param_defs_view(params@)),
        ModelDefinition::Record(id, items, params) =>
            ModelDefinitionView::Record(id@, record_items_view(items@), param_defs_view(params@)),
        ModelDefinition::Tuple(id, items, params) =>
            ModelDefinitionView::Tuple(id@, tuple_items_view(items@), param_defs_view(params@)),
        ModelDefinition::Enum(id, items, params) =>
            ModelDefinitionView::Enum(id@, enum_items_view(items@), param_defs_view(params@)),
        ModelDefinition::Alias(id, params, t) =>
            ModelDefinitionView::Alias(id@, param_defs_view(params@), Box::new(item_type_view(*t))),
        ModelDefinition::Scalar(id) => ModelDefinitionView::Scalar(id@),
    }
}

/// Viewing a sequence of supplied parameters is pointwise.
pub proof fn lemma_model_params_view_len(s: Seq<ModelParam>)
    ensures
        model_params_view(s).len() == s.len(),
    decreases s,
{
    if s.len() > 0 {
        lemma_model_params_view_len(s.drop_last());
    }
}

/// Viewing a sequence is pointwise.
pub proof fn lemma_model_params_view_index(s: Seq<ModelParam>, i: int)
    requires
        0 <= i < s.len(),
    ensures
        model_params_view(s).len() == s.len(),
        model_params_view(s)[i] == model_param_view(s[i]),
    decreases s,
{
    lemma_model_params_view_len(s);
    if i < s.len() - 1 {
        assert(s.drop_last()[i] == s[i]);
        lemma_model_params_view_index(s.drop_last(), i);
    } else {
        lemma_model_params_view_len(s.drop_last());
    }
}

/// Viewing a sequence of declared parameters is pointwise.
pub proof fn lemma_param_defs_view_len(s: Seq<ModelParamDefinition>)
    ensures
        param_defs_view(s).len() == s.len(),
    decreases s,
{
    if s.len() > 0 {
        lemma_param_defs_view_len(s.drop_last());
    }
}

/// Viewing a sequence is pointwise.
pub proof fn lemma_param_defs_view_index(s: Seq<ModelParamDefinition>, i: int)
    requires
        0 <= i < s.len(),
    ensures
        param_defs_view(s).len() == s.len(),
        param_defs_view(s)[i] == param_def_view(s[i]),
    decreases s,
{
    lemma_param_defs_view_len(s);
    if i < s.len() - 1 {
        assert(s.drop_last()[i] == s[i]);
        lemma_param_defs_view_index(s.drop_last(), i);
    } else {
        lemma_param_defs_view_len(s.drop_last());
    }
}

/// Viewing a sequence of record items is pointwise.
pub proof fn lemma_record_items_view_len(s: Seq<RecordItem>)
    ensures
        record_items_view(s).len() == s.len(),
    decreases s,
{
    if s.len() > 0 {
        lemma_record_items_view_len(s.drop_last());
    }
}

/// Viewing a sequence is pointwise.
pub proof fn lemma_record_items_view_index(s: Seq<RecordItem>, i: int)
    requires
        0 <= i < s.len(),
    ensures
        record_items_view(s).len() == s.len(),
        record_items_view(s)[i] == record_item_view(s[i]),
    decreases s,
{
    lemma_record_items_view_len(s);
    if i < s.len() - 1 {
        assert(s.drop_last()[i] == s[i]);
        lemma_record_items_view_index(s.drop_last(), i);
    } else {
        lemma_record_items_view_len(s.drop_last());
    }
}

/// Viewing a sequence of tuple items is pointwise.
pub proof fn lemma_tuple_items_view_len(s: Seq<TupleItem>)
    ensures
        tuple_items_view(s).len() == s.len(),
    decreases s,
{
    if s.len() > 0 {
        lemma_tuple_items_view_len(s.drop_last());
    }
}

/// Viewing a sequence is pointwise.
pub proof fn lemma_tuple_items_view_index(s: Seq<TupleItem>, i: int)
    requires
        0 <= i < s.len(),
    ensures
        tuple_items_view(s).len() == s.len(),
        tuple_items_view(s)[i] == tuple_item_view(s[i]),
    decreases s,
{
    lemma_tuple_items_view_len(s);
    if i < s.len() - 1 {
        assert(s.drop_last()[i] == s[i]);
        lemma_tuple_items_view_index(s.drop_last(), i);
    } else {
        lemma_tuple_items_view_len(s.drop_last());
    }
}

/// Viewing a sequence of enum items is pointwise.
pub proof fn lemma_enum_items_view_len(s: Seq<EnumItem>)
    ensures
        enum_items_view(s).len() == s.len(),
    decreases s,
{
    if s.len() > 0 {
        lemma_enum_items_view_len(s.drop_last());
    }
}

/// Viewing a sequence is pointwise.
pub proof fn lemma_enum_items_view_index(s: Seq<EnumItem>, i: int)
    requires
        0 <= i < s.len(),
    ensures
        enum_items_view(s).len() == s.len(),
        enum_items_view(s)[i] == enum_item_view(s[i]),
    decreases s,
{
    lemma_enum_items_view_len(s);
    if i < s.len() - 1 {
        assert(s.drop_last()[i] == s[i]);
        lemma_enum_items_view_index(s.drop_last(), i);
    } else {
        lemma_enum_items_view_len(s.drop_last());
    }
}

/// Viewing a concatenation of record items splits pointwise.
pub proof fn lemma_record_items_view_concat(a: Seq<RecordItem>, b: Seq<RecordItem>)
    ensures
        record_items_view(a + b) == record_items_view(a) + record_items_view(b),
    decreases b,
{
    if b.len() == 0 {
        assert(a + b =~= a);
        assert(record_items_view(a) + record_items_view(b) =~= record_items_view(a));
    } else {
        assert((a + b).drop_last() =~= a + b.drop_last());
        assert((a + b).last() == b.last());
        lemma_record_items_view_concat(a, b.drop_last());
        assert(record_items_view(a) + record_items_view(b) =~= record_items_view(a) + record_items_view(b.drop_last()).push(
            record_item_view(b.last()),
        ));
    }
}

/// Viewing a concatenation of tuple items splits pointwise.
pub proof fn lemma_tuple_items_view_concat(a: Seq<TupleItem>, b: Seq<TupleItem>)
    ensures
        tuple_items_view(a + b) == tuple_items_view(a) + tuple_items_view(b),
    decreases b,
{
    if b.len() == 0 {
        assert(a + b =~= a);
        assert(tuple_items_view(a) + tuple_items_view(b) =~= tuple_items_view(a));
    } else {
        assert((a + b).drop_last() =~= a + b.drop_last());
        assert((a + b).last() == b.last());
        lemma_tuple_items_view_concat(a, b.drop_last());
        assert(tuple_items_view(a) + tuple_items_view(b) =~= tuple_items_view(a) + tuple_items_view(b.drop_last()).push(
            tuple_item_view(b.last()),
        ));
    }
}

/// Viewing a concatenation of enum items splits pointwise.
pub proof fn lemma_enum_items_view_concat(a: Seq<EnumItem>, b: Seq<EnumItem>)
    ensures
        enum_items_view(a + b) == enum_items_view(a) + enum_items_view(b),
    decreases b,
{
    if b.len() == 0 {
        assert(a + b =~= a);
        assert(enum_items_view(a) + enum_items_view(b) =~= enum_items_view(a));
    } else {
        assert((a + b).drop_last() =~= a + b.drop_last());
        assert((a + b).last() == b.last());
        lemma_enum_items_view_concat(a, b.drop_last());
        assert(enum_items_view(a) + enum_items_view(b) =~= enum_items_view(a) + enum_items_view(b.drop_last()).push(
            enum_item_view(b.last()),
        ));
    }
}

/// Viewing a concatenation of supplied parameters splits pointwise.
pub proof fn lemma_model_params_view_concat(a: Seq<ModelParam>, b: Seq<ModelParam>)
    ensures
        model_params_view(a + b) == model_params_view(a) + model_params_view(b),
    decreases b,
{
    if b.len() == 0 {
        assert(a + b =~= a);
        assert(model_params_view(a) + model_params_view(b) =~= model_params_view(a));
    } else {
        assert((a + b).drop_last() =~= a + b.drop_last());
        assert((a + b).last() == b.last());
        lemma_model_params_view_concat(a, b.drop_last());
        assert(model_params_view(a) + model_params_view(b) =~= model_params_view(a) + model_params_view(b.drop_last()).push(
            model_param_view(b.last()),
        ));
    }
}

/// Viewing a concatenation of declared parameters splits pointwise.
pub proof fn lemma_param_defs_view_concat(a: Seq<ModelParamDefinition>, b: Seq<ModelParamDefinition>)
    ensures
        param_defs_view(a + b) == param_defs_view(a) + param_defs_view(b),
    decreases b,
{
    if b.len() == 0 {
        assert(a + b =~= a);
        assert(param_defs_view(a) + param_defs_view(b) =~= param_defs_view(a));
    } else {
        assert((a + b).drop_last() =~= a + b.drop_last());
        assert((a + b).last() == b.last());
        lemma_param_defs_view_concat(a, b.drop_last());
        assert(param_defs_view(a) + param_defs_view(b) =~= param_defs_view(a) + param_defs_view(b.drop_last()).push(
            param_def_view(b.last()),
        ));
    }
}

impl View for ItemType {
    type V = ItemTypeView;

    open spec fn view(&self) -> ItemTypeView {
        item_type_view(*self)
    }
}

impl View for ModelDefinition {
    type V = ModelDefinitionView;

    open spec fn view(&self) -> ModelDefinitionView {
        model_def_view(*self)
    }
}

impl View for ModelParam {
    type V = ModelParamView;

    open spec fn view(&self) -> ModelParamView {
        model_param_view(*self)
    }
}

impl View for ModelParamDefinition {
    type V = ModelParamDefinitionView;

    open spec fn view(&self) -> ModelParamDefinitionView {
        param_def_view(*self)
    }
}

impl View for RecordItem {
    type V = RecordItemView;

    open spec fn view(&self) -> RecordItemView {
        record_item_view(*self)
    }
}

impl View for TupleItem {
    type V = TupleItemView;

    open spec fn view(&self) -> TupleItemView {
        tuple_item_view(*self)
    }
}

impl View for EnumItem {
    type V = EnumItemView;

    open spec fn view(&self) -> EnumItemView {
        enum_item_view(*self)
    }
}

impl ItemType {
    /// A reference to a model by name, with optionally supplied parameters.
    pub fn new_name(name: Id, params: Option<Vec<ModelParam>>) -> (r: Self)
        ensures
            r@ == ItemTypeView::Model(name@, match params {
                Some(p) => model_params_view(p@),
                None => Seq::<ModelParamView>::empty(),
            }),
    {
        match params {
            Some(p) => ItemType::Model(name, p),
            None => ItemType::Model(name, Vec::new()),
        }
    }

    /// An anonymous definition written directly at a type position.
    pub fn new_inline(inline: ModelDefinition) -> (r: Self)
        ensures
            r@ == ItemTypeView::Inline(inline@),
    {
        ItemType::Inline(inline)
    }

    /// An anonymous tuple written directly at a type position; the tuple
    /// itself carries the `Inline` identity.
    pub fn new_inline_tuple(items: Vec<TupleItem>) -> (r: Self)
        ensures
            r@ == ItemTypeView::Inline(ModelDefinitionView::Tuple(
                IdView::Inline,
                tuple_items_view(items@),
                Seq::<ModelParamDefinitionView>::empty(),
            )),
    {
        ItemType::Inline(ModelDefinition::new_tuple(Id::Inline, Some(items), None))
    }
}

impl ModelParamDefinition {
    /// A declared generic parameter with an optional constraint.
    pub fn new_generic(id: Id, constraint_type: Option<ItemType>) -> (r: Self)
        ensures
            r@ == (ModelParamDefinitionView::Generic {
                id: id@,
                constraint_type: match constraint_type {
                    Some(t) => Some(t@),
                    None => None,
                },
            }),
    {
        ModelParamDefinition::Generic { id, constraint_type }
    }

    /// A declared metadata parameter with its type and optional default.
    pub fn new_metadata(id: Id, type_id: ItemType, def_value: Option<Literal>) -> (r: Self)
        ensures
            r@ == (ModelParamDefinitionView::Metadata {
                id: id@,
                type_id: type_id@,
                def_value: match def_value {
                    Some(l) => Some(l@),
                    None => None,
                },
            }),
    {
        ModelParamDefinition::Metadata { id, type_id, def_value }
    }
}

impl ModelParam {
    /// A supplied generic type argument.
    pub fn new_generic(item_type: ItemType) -> (r: Self)
        ensures
            r@ == ModelParamView::Generic(item_type@),
    {
        ModelParam::Generic(item_type)
    }

    /// A supplied metadata value.
    pub fn new_metadata(id: Id, value: Literal) -> (r: Self)
        ensures
            r@ == ModelParamView::Metadata(id@, value@),
    {
        ModelParam::Metadata(id, value)
    }
}

impl RecordItem {
    /// A named field.
    pub fn new_item(id: Id, item_type: ItemType) -> (r: Self)
        ensures
            r@ == RecordItemView::Item(id@, item_type@),
    {
        RecordItem::Item(id, item_type)
    }

    /// A structural inclusion of another record or fragment.
    pub fn new_spread(item_type: ItemType) -> (r: Self)
        ensures
            r@ == RecordItemView::Spread(item_type@),
    {
        RecordItem::Spread(item_type)
    }
}

impl TupleItem {
    /// A positional item.
    pub fn new_item(item_type: ItemType) -> (r: Self)
        ensures
            r@ == TupleItemView::Item(item_type@),
    {
        TupleItem::Item(item_type)
    }

    /// A named item.
    pub fn new_named_item(id: &str, item_type: ItemType) -> (r: Self)
        ensures
            r@ == TupleItemView::NamedItem(IdView::Name(id@), item_type@),
    {
        TupleItem::NamedItem(Id::Name(id.to_owned()), item_type)
    }
}

impl EnumItem {
    /// A unit variant.
    pub fn new_item(id: Id) -> (r: Self)
        ensures
            r@ == EnumItemView::Item(id@),
    {
        EnumItem::Item(id)
    }

    /// A variant with an anonymous record payload.
    pub fn new_record(id: Id, items: Vec<RecordItem>) -> (r: Self)
        ensures
            r@ == EnumItemView::Record(id@, ItemTypeView::Inline(ModelDefinitionView::Record(
                IdView::Inline,
                record_items_view(items@),
                Seq::<ModelParamDefinitionView>::empty(),
            ))),
    {
        let def = ModelDefinition::new_record(Id::Inline, Some(items), None);
        EnumItem::Record(id, ItemType::new_inline(def))
    }

    /// A variant with an anonymous tuple payload.
    pub fn new_tuple(id: Id, items: Vec<TupleItem>) -> (r: Self)
        ensures
            r@ == EnumItemView::Tuple(id@, ItemTypeView::Inline(ModelDefinitionView::Tuple(
                IdView::Inline,
                tuple_items_view(items@),
                Seq::<ModelParamDefinitionView>::empty(),
            ))),
    {
        let def = ModelDefinition::new_tuple(Id::Inline, Some(items), None);
        EnumItem::Tuple(id, ItemType::new_inline(def))
    }

    /// A variant with an anonymous nested enum payload.
    pub fn new_enum(id: Id, items: Vec<EnumItem>) -> (r: Self)
        ensures
            r@ == EnumItemView::Enum(id@, ItemTypeView::Inline(ModelDefinitionView::Enum(
                IdView::Inline,
                enum_items_view(items@),
                Seq::<ModelParamDefinitionView>::empty(),
            ))),
    {
        let def = ModelDefinition::new_enum(Id::Inline, items, None);
        EnumItem::Enum(id, ItemType::new_inline(def))
    }
}

impl ModelDefinition {
    /// A fragment: a reusable named field set.
    pub fn new_fragment(
        id: Id,
        items: Option<Vec<RecordItem>>,
        params: Option<Vec<ModelParamDefinition>>,
    ) -> (r: Self)
        ensures
            r@ == ModelDefinitionView::Fragment(
                id@,
                match items {
                    Some(i) => record_items_view(i@),
                    None => Seq::<RecordItemView>::empty(),
                },
                match params {
                    Some(p) => param_defs_view(p@),
                    None => Seq::<ModelParamDefinitionView>::empty(),
                },
            ),
    {
        ModelDefinition::Fragment(
            id,
            match items {
                Some(i) => i,
                None => Vec::new(),
            },
            match params {
                Some(p) => p,
                None => Vec::new(),
            },
        )
    }

    /// A record: a named-field aggregate.
    pub fn new_record(
        id: Id,
        items: Option<Vec<RecordItem>>,
        params: Option<Vec<ModelParamDefinition>>,
    ) -> (r: Self)
        ensures
            r@ == ModelDefinitionView::Record(
                id@,
                match items {
                    Some(i) => record_items_view(i@),
                    None => Seq::<RecordItemView>::empty(),
                },
                match params {
                    Some(p) => param_defs_view(p@),
                    None => Seq::<ModelParamDefinitionView>::empty(),
                },
            ),
    {
        ModelDefinition::Record(
            id,
            match items {
                Some(i) => i,
                None => Vec::new(),
            },
            match params {
                Some(p) => p,
                None => Vec::new(),
            },
        )
    }

    /// A tuple: a positional-field aggregate.
    pub fn new_tuple(
        id: Id,
        items: Option<Vec<TupleItem>>,
        params: Option<Vec<ModelParamDefinition>>,
    ) -> (r: Self)
        ensures
            r@ == ModelDefinitionView::Tuple(
                id@,
                match items {
                    Some(i) => tuple_items_view(i@),
                    None => Seq::<TupleItemView>::empty(),
                },
                match params {
                    Some(p) => param_defs_view(p@),
                    None => Seq::<ModelParamDefinitionView>::empty(),
                },
            ),
    {
        ModelDefinition::Tuple(
            id,
            match items {
                Some(i) => i,
                None => Vec::new(),
            },
            match params {
                Some(p) => p,
                None => Vec::new(),
            },
        )
    }

    /// An enum: a tagged-variant shape.
    pub fn new_enum(
        id: Id,
        items: Vec<EnumItem>,
        params: Option<Vec<ModelParamDefinition>>,
    ) -> (r: Self)
        ensures
            r@ == ModelDefinitionView::Enum(
                id@,
                enum_items_view(items@),
                match params {
                    Some(p) => param_defs_view(p@),
                    None => Seq::<ModelParamDefinitionView>::empty(),
                },
            ),
    {
        ModelDefinition::Enum(
            id,
            items,
            match params {
                Some(p) => p,
                None => Vec::new(),
            },
        )
    }

    /// An alias: a name for another type.
    pub fn new_alias(
        id: Id,
        params: Option<Vec<ModelParamDefinition>>,
        item_type: ItemType,
    ) -> (r: Self)
        ensures
            r@ == ModelDefinitionView::Alias(
                id@,
                match params {
                    Some(p) => param_defs_view(p@),
                    None => Seq::<ModelParamDefinitionView>::empty(),
                },
                Box::new(item_type@),
            ),
    {
        ModelDefinition::Alias(
            id,
            match params {
                Some(p) => p,
                None => Vec::new(),
            },
            Box::new(item_type),
        )
    }

    /// A scalar: an opaque, structure-less leaf type.
    pub fn new_scalar(id: Id) -> (r: Self)
        ensures
            r@ == ModelDefinitionView::Scalar(id@),
    {
        ModelDefinition::Scalar(id)
    }
}

} // verus!
