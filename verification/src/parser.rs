//! The parser: consumes the token stream and builds the scope tree,
//! substituting error-recovery leaves at points of local syntax failure and
//! otherwise continuing, so a partially invalid document still yields a tree
//! holding every valid sibling in source order.
//!
//! The spec functions here define the grammar as one deterministic
//! recursive-descent parse; the executable parser is proved to produce
//! exactly that tree.

use vstd::prelude::*;
use vstd::string::StringExecFns;
use crate::ast::{Id, IdView};
use crate::lexer::{lexed, tokenize, tokens_view, Token, TokenView};
use crate::model::{
    enum_item_view, enum_items_view, item_type_view, record_item_view, record_items_view,
    tuple_item_view, tuple_items_view, EnumItem, EnumItemView, ModelParam,
    ModelParamDefinition,
    ItemType, ItemTypeView, ModelDefinition, ModelDefinitionView, ModelParamDefinitionView,
    ModelParamView, RecordItem, RecordItemView, TupleItem, TupleItemView,
};
use crate::scope::{scope_view, scopes_view, RecoveredError, Scope, ScopeView};

verus! {

/// The text of one token, as it stands in source.
pub open spec fn token_text(t: TokenView) -> Seq<char> {
    match t {
        TokenView::KeywordPackage => "package"@,
        TokenView::KeywordModel => "model"@,
        TokenView::KeywordEnum => "enum"@,
        TokenView::KeywordFragment => "fragment"@,
        TokenView::KeywordScalar => "scalar"@,
        TokenView::Identifier(s) => s,
        TokenView::Number(s) => s,
        TokenView::LParen => "("@,
        TokenView::RParen => ")"@,
        TokenView::LBracket => "{"@,
        TokenView::RBracket => "}"@,
        TokenView::Lees => "<"@,
        TokenView::Greater => ">"@,
        TokenView::LSquare => "["@,
        TokenView::RSquare => "]"@,
        TokenView::Question => "?"@,
        TokenView::Assign => "="@,
        TokenView::Semicolon => ";"@,
        TokenView::Colon => ":"@,
        TokenView::Comma => ","@,
        TokenView::Spread => "..."@,
        TokenView::Error(_) => "invalid input"@,
    }
}

/// The description an error leaf carries for a declaration that failed to
/// parse at this token.
pub open spec fn recovery_description(t: TokenView) -> Seq<char> {
    "unexpected "@ + token_text(t)
}

/// Tokens at which recovery resynchronizes: the start of a declaration, or
/// the closing brace of the enclosing package body.
pub open spec fn is_sync_token(t: TokenView) -> bool {
    t is KeywordPackage || t is KeywordModel || t is KeywordEnum || t is KeywordFragment
        || t is KeywordScalar || t is RBracket
}

/// The first position at or after `pos` where parsing can resynchronize.
pub open spec fn skip_sync(t: Seq<TokenView>, pos: int) -> int
    decreases t.len() - pos,
{
    if 0 <= pos < t.len() && !is_sync_token(t[pos]) {
        skip_sync(t, pos + 1)
    } else {
        pos
    }
}

pub proof fn lemma_skip_sync_bounds(t: Seq<TokenView>, pos: int)
    requires
        0 <= pos <= t.len(),
    ensures
        pos <= skip_sync(t, pos) <= t.len(),
    decreases t.len() - pos,
{
    if pos < t.len() && !is_sync_token(t[pos]) {
        lemma_skip_sync_bounds(t, pos + 1);
    }
}

/// An optional construct name: a name when an identifier stands at `pos`,
/// the anonymous identity otherwise.
pub open spec fn name_at(t: Seq<TokenView>, pos: int) -> (IdView, int) {
    if 0 <= pos < t.len() && t[pos] is Identifier {
        (IdView::Name(t[pos]->Identifier_0), pos + 1)
    } else {
        (IdView::Inline, pos)
    }
}


/// The supplied generic arguments after `<`: one or more comma-separated
/// type references, closed by `>`, which is consumed.
pub open spec fn generic_args_at(t: Seq<TokenView>, pos: int) -> Option<(Seq<ModelParamView>, int)>
    decreases t.len() - pos, 1int,
{
    match item_type_at(t, pos) {
        Some((ty, p)) => {
            let q = if pos < p <= t.len() {
                p
            } else {
                pos + 1
            };
            if q < t.len() && t[q] is Comma {
                match generic_args_at(t, q + 1) {
                    Some((rest, pend)) => Some((seq![ModelParamView::Generic(ty)] + rest, pend)),
                    None => None,
                }
            } else if q < t.len() && t[q] is Greater {
                Some((seq![ModelParamView::Generic(ty)], q + 1))
            } else {
                None
            }
        },
        None => None,
    }
}

/// The supplied metadata arguments after `[`: one or more comma-separated
/// `name=value` pairs, closed by `]`, which is consumed.
pub open spec fn metadata_args_at(t: Seq<TokenView>, pos: int) -> Option<(
    Seq<ModelParamView>,
    int,
)>
    decreases t.len() - pos,
{
    if 0 <= pos && pos + 2 < t.len() && t[pos] is Identifier && t[pos + 1] is Assign && t[pos
        + 2] is Number {
        let item = ModelParamView::Metadata(
            IdView::Name(t[pos]->Identifier_0),
            crate::ast::LiteralView::Number(t[pos + 2]->Number_0),
        );
        let q = pos + 3;
        if q < t.len() && t[q] is Comma {
            match metadata_args_at(t, q + 1) {
                Some((rest, pend)) => Some((seq![item] + rest, pend)),
                None => None,
            }
        } else if q < t.len() && t[q] is RSquare {
            Some((seq![item], q + 1))
        } else {
            None
        }
    } else {
        None
    }
}

/// The supplied parameters of a type reference: an optional `<...>` group of
/// generic arguments followed by an optional `[...]` group of metadata
/// arguments; both absent yields the empty list at `pos`.
pub open spec fn model_params_at(t: Seq<TokenView>, pos: int) -> Option<(Seq<ModelParamView>, int)>
    decreases t.len() - pos, 2int,
{
    if !(0 <= pos <= t.len()) {
        None
    } else {
        let gens = if pos < t.len() && t[pos] is Lees {
            generic_args_at(t, pos + 1)
        } else {
            Some((Seq::empty(), pos))
        };
        match gens {
            Some((gs, p)) => {
                let q = if pos <= p <= t.len() {
                    p
                } else {
                    pos
                };
                if q < t.len() && t[q] is LSquare {
                    match metadata_args_at(t, q + 1) {
                        Some((ms, pend)) => Some((gs + ms, pend)),
                        None => None,
                    }
                } else {
                    Some((gs, q))
                }
            },
            None => None,
        }
    }
}

/// The declared generic parameters after `<`: one or more comma-separated
/// names, each with an optional `:`-separated constraint, closed by `>`.
pub open spec fn generic_defs_at(t: Seq<TokenView>, pos: int) -> Option<(
    Seq<ModelParamDefinitionView>,
    int,
)>
    decreases t.len() - pos, 1int,
{
    if 0 <= pos < t.len() && t[pos] is Identifier {
        let id = IdView::Name(t[pos]->Identifier_0);
        let ctp = if pos + 1 < t.len() && t[pos + 1] is Colon {
            match item_type_at(t, pos + 2) {
                Some((ty, p)) => Some((Some(ty), p)),
                None => None,
            }
        } else {
            Some((None, pos + 1))
        };
        match ctp {
            Some((ct, p)) => {
                let item = ModelParamDefinitionView::Generic { id, constraint_type: ct };
                let q = if pos < p <= t.len() {
                    p
                } else {
                    pos + 1
                };
                if q < t.len() && t[q] is Comma {
                    match generic_defs_at(t, q + 1) {
                        Some((rest, pend)) => Some((seq![item] + rest, pend)),
                        None => None,
                    }
                } else if q < t.len() && t[q] is Greater {
                    Some((seq![item], q + 1))
                } else {
                    None
                }
            },
            None => None,
        }
    } else {
        None
    }
}

/// The declared metadata parameters after `[`: one or more comma-separated
/// `name:TYPE` entries, each with an optional `=`-separated default value,
/// closed by `]`.
pub open spec fn metadata_defs_at(t: Seq<TokenView>, pos: int) -> Option<(
    Seq<ModelParamDefinitionView>,
    int,
)>
    decreases t.len() - pos, 1int,
{
    if 0 <= pos && pos + 1 < t.len() && t[pos] is Identifier && t[pos + 1] is Colon {
        let id = IdView::Name(t[pos]->Identifier_0);
        match item_type_at(t, pos + 2) {
            Some((ty, p)) => {
                let q = if pos < p <= t.len() {
                    p
                } else {
                    pos + 1
                };
                let dvp = if q + 1 < t.len() && t[q] is Assign && t[q + 1] is Number {
                    (Some(crate::ast::LiteralView::Number(t[q + 1]->Number_0)), q + 2)
                } else {
                    (None, q)
                };
                let item = ModelParamDefinitionView::Metadata {
                    id,
                    type_id: ty,
                    def_value: dvp.0,
                };
                let w = dvp.1;
                if w < t.len() && t[w] is Comma {
                    match metadata_defs_at(t, w + 1) {
                        Some((rest, pend)) => Some((seq![item] + rest, pend)),
                        None => None,
                    }
                } else if w < t.len() && t[w] is RSquare {
                    Some((seq![item], w + 1))
                } else {
                    None
                }
            },
            None => None,
        }
    } else {
        None
    }
}

/// The declared parameters of a model: an optional `<...>` group followed by
/// an optional `[...]` group; both absent yields the empty list at `pos`.
pub open spec fn params_def_at(t: Seq<TokenView>, pos: int) -> Option<(
    Seq<ModelParamDefinitionView>,
    int,
)>
    decreases t.len() - pos, 2int,
{
    if !(0 <= pos <= t.len()) {
        None
    } else {
        let gens = if pos < t.len() && t[pos] is Lees {
            generic_defs_at(t, pos + 1)
        } else {
            Some((Seq::empty(), pos))
        };
        match gens {
            Some((gs, p)) => {
                let q = if pos <= p <= t.len() {
                    p
                } else {
                    pos
                };
                if q < t.len() && t[q] is LSquare {
                    match metadata_defs_at(t, q + 1) {
                        Some((ms, pend)) => Some((gs + ms, pend)),
                        None => None,
                    }
                } else {
                    Some((gs, q))
                }
            },
            None => None,
        }
    }
}

/// A type reference at `pos`: a model name, or an anonymous tuple, record,
/// or enum definition written inline.
pub open spec fn item_type_at(t: Seq<TokenView>, pos: int) -> Option<(ItemTypeView, int)>
    decreases t.len() - pos, 0int,
{
    if !(0 <= pos < t.len()) {
        None
    } else {
        match t[pos] {
            TokenView::Identifier(name) => match model_params_at(t, pos + 1) {
                Some((params, p)) => Some((ItemTypeView::Model(IdView::Name(name), params), p)),
                None => None,
            },
            TokenView::LParen => match tuple_items_at(t, pos + 1) {
                Some((items, p)) => if p < t.len() && t[p] is RParen {
                    Some(
                        (
                            ItemTypeView::Inline(
                                ModelDefinitionView::Tuple(IdView::Inline, items, Seq::empty()),
                            ),
                            p + 1,
                        ),
                    )
                } else {
                    None
                },
                None => None,
            },
            TokenView::LBracket => match record_items_at(t, pos + 1) {
                Some((items, p)) => if p < t.len() && t[p] is RBracket {
                    Some(
                        (
                            ItemTypeView::Inline(
                                ModelDefinitionView::Record(IdView::Inline, items, Seq::empty()),
                            ),
                            p + 1,
                        ),
                    )
                } else {
                    None
                },
                None => None,
            },
            TokenView::KeywordEnum => if pos + 1 < t.len() && t[pos + 1] is LBracket {
                match enum_items_at(t, pos + 2) {
                    Some((items, p)) => if p < t.len() && t[p] is RBracket {
                        Some(
                            (
                                ItemTypeView::Inline(
                                    ModelDefinitionView::Enum(IdView::Inline, items, Seq::empty()),
                                ),
                                p + 1,
                            ),
                        )
                    } else {
                        None
                    },
                    None => None,
                }
            } else {
                None
            },
            _ => None,
        }
    }
}

/// The comma-separated items of a tuple body, ending just before the closing
/// parenthesis; the list may be empty.
pub open spec fn tuple_items_at(t: Seq<TokenView>, pos: int) -> Option<(Seq<TupleItemView>, int)>
    decreases t.len() - pos, 1int,
{
    if !(0 <= pos <= t.len()) {
        None
    } else if pos == t.len() || t[pos] is RParen {
        Some((Seq::empty(), pos))
    } else {
        let item = if t[pos] is Identifier && pos + 1 < t.len() && t[pos + 1] is Colon {
            match item_type_at(t, pos + 2) {
                Some((ty, p)) => Some(
                    (TupleItemView::NamedItem(IdView::Name(t[pos]->Identifier_0), ty), p),
                ),
                None => None,
            }
        } else {
            match item_type_at(t, pos) {
                Some((ty, p)) => Some((TupleItemView::Item(ty), p)),
                None => None,
            }
        };
        match item {
            Some((it, p)) => {
                let q = if pos < p <= t.len() {
                    p
                } else {
                    pos + 1
                };
                if q < t.len() && t[q] is Comma {
                    match tuple_items_at(t, q + 1) {
                        Some((rest, pend)) => if rest.len() > 0 {
                            Some((seq![it] + rest, pend))
                        } else {
                            // a separator must stand between items, never trailing
                            None
                        },
                        None => None,
                    }
                } else {
                    Some((seq![it], q))
                }
            },
            None => None,
        }
    }
}

/// The items of a record-shaped body, one per line in source, ending just
/// before the closing brace: named fields and spreads.
pub open spec fn record_items_at(t: Seq<TokenView>, pos: int) -> Option<(Seq<RecordItemView>, int)>
    decreases t.len() - pos, 1int,
{
    if !(0 <= pos <= t.len()) {
        None
    } else if pos == t.len() || t[pos] is RBracket {
        Some((Seq::empty(), pos))
    } else {
        let item = if t[pos] is Spread {
            match item_type_at(t, pos + 1) {
                Some((ty, p)) => Some((RecordItemView::Spread(ty), p)),
                None => None,
            }
        } else if t[pos] is Identifier && pos + 1 < t.len() && t[pos + 1] is Colon {
            match item_type_at(t, pos + 2) {
                Some((ty, p)) => Some(
                    (RecordItemView::Item(IdView::Name(t[pos]->Identifier_0), ty), p),
                ),
                None => None,
            }
        } else {
            None
        };
        match item {
            Some((it, p)) => {
                let q = if pos < p <= t.len() {
                    p
                } else {
                    pos + 1
                };
                match record_items_at(t, q) {
                    Some((rest, pend)) => Some((seq![it] + rest, pend)),
                    None => None,
                }
            },
            None => None,
        }
    }
}

/// The variants of an enum body, ending just before the closing brace: a
/// name, optionally followed by a tuple, record, or nested enum payload.
pub open spec fn enum_items_at(t: Seq<TokenView>, pos: int) -> Option<(Seq<EnumItemView>, int)>
    decreases t.len() - pos, 1int,
{
    if !(0 <= pos <= t.len()) {
        None
    } else if pos == t.len() || t[pos] is RBracket {
        Some((Seq::empty(), pos))
    } else if t[pos] is Identifier {
        let name = IdView::Name(t[pos]->Identifier_0);
        let item = if pos + 1 < t.len() && t[pos + 1] is LParen {
            match tuple_items_at(t, pos + 2) {
                Some((items, p)) => if p < t.len() && t[p] is RParen {
                    Some(
                        (
                            EnumItemView::Tuple(
                                name,
                                ItemTypeView::Inline(
                                    ModelDefinitionView::Tuple(IdView::Inline, items, Seq::empty()),
                                ),
                            ),
                            p + 1,
                        ),
                    )
                } else {
                    None
                },
                None => None,
            }
        } else if pos + 1 < t.len() && t[pos + 1] is LBracket {
            match record_items_at(t, pos + 2) {
                Some((items, p)) => if p < t.len() && t[p] is RBracket {
                    Some(
                        (
                            EnumItemView::Record(
                                name,
                                ItemTypeView::Inline(
                                    ModelDefinitionView::Record(
                                        IdView::Inline,
                                        items,
                                        Seq::empty(),
                                    ),
                                ),
                            ),
                            p + 1,
                        ),
                    )
                } else {
                    None
                },
                None => None,
            }
        } else if pos + 2 < t.len() && t[pos + 1] is KeywordEnum && t[pos + 2] is LBracket {
            match enum_items_at(t, pos + 3) {
                Some((items, p)) => if p < t.len() && t[p] is RBracket {
                    Some(
                        (
                            EnumItemView::Enum(
                                name,
                                ItemTypeView::Inline(
                                    ModelDefinitionView::Enum(IdView::Inline, items, Seq::empty()),
                                ),
                            ),
                            p + 1,
                        ),
                    )
                } else {
                    None
                },
                None => None,
            }
        } else {
            Some((EnumItemView::Item(name), pos + 1))
        };
        match item {
            Some((it, p)) => {
                let q = if pos < p <= t.len() {
                    p
                } else {
                    pos + 1
                };
                match enum_items_at(t, q) {
                    Some((rest, pend)) => Some((seq![it] + rest, pend)),
                    None => None,
                }
            },
            None => None,
        }
    } else {
        None
    }
}

/// One declaration at `pos`, if one parses there: a braced package, a model
/// in one of its shapes, an enum, a fragment, or a scalar.
pub open spec fn decl_at(t: Seq<TokenView>, pos: int) -> Option<(ScopeView, int)>
    decreases t.len() - pos, 2int,
{
    if !(0 <= pos < t.len()) {
        None
    } else {
        match t[pos] {
            TokenView::KeywordPackage => if pos + 2 < t.len() && t[pos + 1] is Identifier && t[pos
                + 2] is LBracket {
                let (items, p) = decl_list_at(t, pos + 3);
                if p < t.len() && t[p] is RBracket {
                    Some(
                        (ScopeView::Package(IdView::Name(t[pos + 1]->Identifier_0), items), p + 1),
                    )
                } else {
                    None
                }
            } else {
                None
            },
            TokenView::KeywordModel => {
                let (id, p1) = name_at(t, pos + 1);
                match params_def_at(t, p1) {
                    Some((defs, p2)) => if p2 < t.len() && t[p2] is LBracket {
                        match record_items_at(t, p2 + 1) {
                            Some((items, p)) => if p < t.len() && t[p] is RBracket {
                                Some(
                                    (
                                        ScopeView::Model(
                                            ModelDefinitionView::Record(id, items, defs),
                                        ),
                                        p + 1,
                                    ),
                                )
                            } else {
                                None
                            },
                            None => None,
                        }
                    } else if p2 < t.len() && t[p2] is LParen {
                        match tuple_items_at(t, p2 + 1) {
                            Some((items, p)) => if p < t.len() && t[p] is RParen {
                                Some(
                                    (
                                        ScopeView::Model(
                                            ModelDefinitionView::Tuple(id, items, defs),
                                        ),
                                        p + 1,
                                    ),
                                )
                            } else {
                                None
                            },
                            None => None,
                        }
                    } else if p2 + 1 < t.len() && t[p2] is KeywordEnum && t[p2 + 1] is LBracket {
                        match enum_items_at(t, p2 + 2) {
                            Some((items, p)) => if p < t.len() && t[p] is RBracket {
                                Some(
                                    (
                                        ScopeView::Model(
                                            ModelDefinitionView::Enum(id, items, defs),
                                        ),
                                        p + 1,
                                    ),
                                )
                            } else {
                                None
                            },
                            None => None,
                        }
                    } else if p2 < t.len() && t[p2] is Assign {
                        match item_type_at(t, p2 + 1) {
                            Some((ty, p)) => if p < t.len() && t[p] is Semicolon {
                                Some(
                                    (
                                        ScopeView::Model(
                                            ModelDefinitionView::Alias(id, defs, Box::new(ty)),
                                        ),
                                        p + 1,
                                    ),
                                )
                            } else {
                                None
                            },
                            None => None,
                        }
                    } else {
                        None
                    },
                    None => None,
                }
            },
            TokenView::KeywordEnum => {
                let (id, p1) = name_at(t, pos + 1);
                match params_def_at(t, p1) {
                    Some((defs, p2)) => if p2 < t.len() && t[p2] is LBracket {
                        match enum_items_at(t, p2 + 1) {
                            Some((items, p)) => if p < t.len() && t[p] is RBracket {
                                Some(
                                    (
                                        ScopeView::Model(
                                            ModelDefinitionView::Enum(id, items, defs),
                                        ),
                                        p + 1,
                                    ),
                                )
                            } else {
                                None
                            },
                            None => None,
                        }
                    } else {
                        None
                    },
                    None => None,
                }
            },
            TokenView::KeywordFragment => {
                let (id, p1) = name_at(t, pos + 1);
                match params_def_at(t, p1) {
                    Some((defs, p2)) => if p2 < t.len() && t[p2] is LBracket {
                        match record_items_at(t, p2 + 1) {
                            Some((items, p)) => if p < t.len() && t[p] is RBracket {
                                Some(
                                    (
                                        ScopeView::Model(
                                            ModelDefinitionView::Fragment(id, items, defs),
                                        ),
                                        p + 1,
                                    ),
                                )
                            } else {
                                None
                            },
                            None => None,
                        }
                    } else {
                        None
                    },
                    None => None,
                }
            },
            TokenView::KeywordScalar => if pos + 2 < t.len() && t[pos + 1] is Identifier && t[pos
                + 2] is Semicolon {
                Some(
                    (
                        ScopeView::Model(
                            ModelDefinitionView::Scalar(IdView::Name(t[pos + 1]->Identifier_0)),
                        ),
                        pos + 3,
                    ),
                )
            } else {
                None
            },
            _ => None,
        }
    }
}

/// One declaration with local recovery: where no declaration parses, an
/// error leaf carrying a description of the offending token takes its place,
/// and parsing resumes at the next synchronization token.
pub open spec fn recovered_decl_at(t: Seq<TokenView>, pos: int) -> (ScopeView, int)
    decreases t.len() - pos, 3int,
{
    match decl_at(t, pos) {
        Some(r) => r,
        None => (
            ScopeView::Error(recovery_description(t[pos])),
            if 0 <= pos < t.len() {
                skip_sync(t, pos + 1)
            } else {
                pos + 1
            },
        ),
    }
}

/// The declarations of one body, in order, until the end of input or the
/// closing brace of the enclosing package.
pub open spec fn decl_list_at(t: Seq<TokenView>, pos: int) -> (Seq<ScopeView>, int)
    decreases t.len() - pos, 4int,
{
    if !(0 <= pos < t.len()) || t[pos] is RBracket {
        (Seq::empty(), pos)
    } else {
        let (d, p) = recovered_decl_at(t, pos);
        let q = if pos < p <= t.len() {
            p
        } else {
            pos + 1
        };
        let (rest, pend) = decl_list_at(t, q);
        (seq![d] + rest, pend)
    }
}

/// The whole top level: declaration lists separated by stray closing braces,
/// each stray brace becoming an error leaf of its own.
pub open spec fn top_level_at(t: Seq<TokenView>, pos: int) -> Seq<ScopeView>
    decreases t.len() - pos,
{
    if !(0 <= pos <= t.len()) {
        Seq::empty()
    } else {
        let (ds, p) = decl_list_at(t, pos);
        if !(pos <= p < t.len()) {
            ds
        } else {
            ds + seq![ScopeView::Error(recovery_description(t[p]))] + top_level_at(t, p + 1)
        }
    }
}

/// A whole compilation unit: a root-form `package NAME;` makes every later
/// declaration a child of that package; otherwise the declarations stand
/// directly under the global scope. The flag says whether the root form was
/// used.
pub open spec fn unit_at(t: Seq<TokenView>) -> (Seq<ScopeView>, bool) {
    if t.len() >= 3 && t[0] is KeywordPackage && t[1] is Identifier && t[2] is Semicolon {
        (
            seq![
                ScopeView::Package(IdView::Name(t[1]->Identifier_0), top_level_at(t, 3)),
            ],
            true,
        )
    } else {
        (top_level_at(t, 0), false)
    }
}

/// The tree of a whole source text: its tokens, parsed as one unit, under
/// the global scope.
pub open spec fn parsed(code: Seq<char>) -> (ScopeView, bool) {
    let (items, root_form) = unit_at(lexed(code));
    (ScopeView::Global(items), root_form)
}


/// Error containment, parsing half: a declaration that parses at `pos` is
/// taken whole into the sibling list, and the remainder of the list is
/// exactly the parse of the tokens after it; a declaration that does not
/// parse contributes exactly one error leaf, and the remainder is exactly
/// the parse from the next synchronization point. Either way, what stands
/// before a sibling never disturbs the siblings after it.
pub proof fn lemma_parse_error_containment(t: Seq<TokenView>, pos: int)
    requires
        0 <= pos < t.len(),
        !(t[pos] is RBracket),
    ensures
        decl_at(t, pos) matches Some(r) ==> (pos < r.1 <= t.len() ==> decl_list_at(t, pos) == (
            seq![r.0] + decl_list_at(t, r.1).0,
            decl_list_at(t, r.1).1,
        )),
        decl_at(t, pos) is None ==> decl_list_at(t, pos) == (
            seq![ScopeView::Error(recovery_description(t[pos]))] + decl_list_at(
                t,
                skip_sync(t, pos + 1),
            ).0,
            decl_list_at(t, skip_sync(t, pos + 1)).1,
        ),
{
    lemma_skip_sync_bounds(t, pos + 1);
    let (d, p) = recovered_decl_at(t, pos);
    let q = if pos < p <= t.len() {
        p
    } else {
        pos + 1
    };
    let (rest, pend) = decl_list_at(t, q);
    assert(decl_list_at(t, pos) == (seq![d] + rest, pend));
    match decl_at(t, pos) {
        Some(r) => {
            if pos < r.1 <= t.len() {
                assert(seq![r.0] + decl_list_at(t, r.1).0 =~= seq![d] + rest);
            }
        },
        None => {
            assert(q == skip_sync(t, pos + 1));
            assert(seq![ScopeView::Error(recovery_description(t[pos]))] + decl_list_at(t, q).0
                =~= seq![d] + rest);
        },
    }
}

// ---------------------------------------------------------------------------
// Everything the grammar produces is renderable.
// ---------------------------------------------------------------------------


/// Parsed supplied generic arguments are well-formed.
pub proof fn lemma_generic_args_at_wf(t: Seq<TokenView>, pos: int)
    ensures
        generic_args_at(t, pos) matches Some(r) ==> crate::transform::wf_model_params(r.0),
    decreases t.len() - pos, 1int,
{
    lemma_item_type_at_wf(t, pos);
    match item_type_at(t, pos) {
        Some((ty, p)) => {
            let q = if pos < p <= t.len() {
                p
            } else {
                pos + 1
            };
            if q < t.len() && t[q] is Comma {
                lemma_generic_args_at_wf(t, q + 1);
                match generic_args_at(t, q + 1) {
                    Some((rest, _pend)) => {
                        match generic_args_at(t, pos) {
                            Some(r) => {
                                assert forall|i: int|
                                    0 <= i < r.0.len() implies crate::transform::wf_model_param(
                                    #[trigger] r.0[i],
                                ) by {
                                    if i > 0 {
                                        assert(r.0[i] == rest[i - 1]);
                                    }
                                }
                            },
                            None => {},
                        }
                    },
                    None => {},
                }
            } else {
                match generic_args_at(t, pos) {
                    Some(r) => {
                        assert forall|i: int|
                            0 <= i < r.0.len() implies crate::transform::wf_model_param(
                            #[trigger] r.0[i],
                        ) by {
                            assert(r.0[i] == ModelParamView::Generic(ty));
                        }
                    },
                    None => {},
                }
            }
        },
        None => {},
    }
}

/// Parsed supplied metadata arguments are well-formed.
pub proof fn lemma_metadata_args_at_wf(t: Seq<TokenView>, pos: int)
    ensures
        metadata_args_at(t, pos) matches Some(r) ==> crate::transform::wf_model_params(r.0),
    decreases t.len() - pos,
{
    if 0 <= pos && pos + 2 < t.len() && t[pos] is Identifier && t[pos + 1] is Assign && t[pos
        + 2] is Number {
        let q = pos + 3;
        if q < t.len() && t[q] is Comma {
            lemma_metadata_args_at_wf(t, q + 1);
            match (metadata_args_at(t, pos), metadata_args_at(t, q + 1)) {
                (Some(r), Some(rest)) => {
                    assert forall|i: int|
                        0 <= i < r.0.len() implies crate::transform::wf_model_param(
                        #[trigger] r.0[i],
                    ) by {
                        if i > 0 {
                            assert(r.0[i] == rest.0[i - 1]);
                        }
                    }
                },
                _ => {},
            }
        } else if q < t.len() && t[q] is RSquare {
            match metadata_args_at(t, pos) {
                Some(r) => {
                    assert forall|i: int|
                        0 <= i < r.0.len() implies crate::transform::wf_model_param(
                        #[trigger] r.0[i],
                    ) by {
                    }
                },
                None => {},
            }
        }
    }
}

/// Parsed supplied parameters are well-formed.
pub proof fn lemma_model_params_at_wf(t: Seq<TokenView>, pos: int)
    ensures
        model_params_at(t, pos) matches Some(r) ==> crate::transform::wf_model_params(r.0),
    decreases t.len() - pos, 2int,
{
    if 0 <= pos <= t.len() {
        if pos < t.len() && t[pos] is Lees {
            lemma_generic_args_at_wf(t, pos + 1);
        }
        let gens = if pos < t.len() && t[pos] is Lees {
            generic_args_at(t, pos + 1)
        } else {
            Some((Seq::<ModelParamView>::empty(), pos))
        };
        match gens {
            Some((gs, p)) => {
                let q = if pos <= p <= t.len() {
                    p
                } else {
                    pos
                };
                if q < t.len() && t[q] is LSquare {
                    lemma_metadata_args_at_wf(t, q + 1);
                    match (model_params_at(t, pos), metadata_args_at(t, q + 1)) {
                        (Some(r), Some(ms)) => {
                            assert forall|i: int|
                                0 <= i < r.0.len() implies crate::transform::wf_model_param(
                                #[trigger] r.0[i],
                            ) by {
                                if i >= gs.len() {
                                    assert(r.0[i] == ms.0[i - gs.len()]);
                                } else {
                                    assert(r.0[i] == gs[i]);
                                }
                            }
                        },
                        _ => {},
                    }
                }
            },
            None => {},
        }
    }
}

/// Parsed declared generic parameters are well-formed.
pub proof fn lemma_generic_defs_at_wf(t: Seq<TokenView>, pos: int)
    ensures
        generic_defs_at(t, pos) matches Some(r) ==> crate::transform::wf_param_defs(r.0),
    decreases t.len() - pos, 1int,
{
    if 0 <= pos < t.len() && t[pos] is Identifier {
        if pos + 1 < t.len() && t[pos + 1] is Colon {
            lemma_item_type_at_wf(t, pos + 2);
        }
        let ctp = if pos + 1 < t.len() && t[pos + 1] is Colon {
            match item_type_at(t, pos + 2) {
                Some((ty, p)) => Some((Some(ty), p)),
                None => None,
            }
        } else {
            Some((None::<ItemTypeView>, pos + 1))
        };
        match ctp {
            Some((ct, p)) => {
                let q = if pos < p <= t.len() {
                    p
                } else {
                    pos + 1
                };
                if q < t.len() && t[q] is Comma {
                    lemma_generic_defs_at_wf(t, q + 1);
                    match (generic_defs_at(t, pos), generic_defs_at(t, q + 1)) {
                        (Some(r), Some(rest)) => {
                            assert forall|i: int|
                                0 <= i < r.0.len() implies crate::transform::wf_param_def(
                                #[trigger] r.0[i],
                            ) by {
                                if i > 0 {
                                    assert(r.0[i] == rest.0[i - 1]);
                                }
                            }
                        },
                        _ => {},
                    }
                } else if q < t.len() && t[q] is Greater {
                    match generic_defs_at(t, pos) {
                        Some(r) => {
                            assert forall|i: int|
                                0 <= i < r.0.len() implies crate::transform::wf_param_def(
                                #[trigger] r.0[i],
                            ) by {
                            }
                        },
                        None => {},
                    }
                }
            },
            None => {},
        }
    }
}

/// Parsed declared metadata parameters are well-formed.
pub proof fn lemma_metadata_defs_at_wf(t: Seq<TokenView>, pos: int)
    ensures
        metadata_defs_at(t, pos) matches Some(r) ==> crate::transform::wf_param_defs(r.0),
    decreases t.len() - pos, 1int,
{
    if 0 <= pos && pos + 1 < t.len() && t[pos] is Identifier && t[pos + 1] is Colon {
        lemma_item_type_at_wf(t, pos + 2);
        match item_type_at(t, pos + 2) {
            Some((ty, p)) => {
                let q = if pos < p <= t.len() {
                    p
                } else {
                    pos + 1
                };
                let dvp = if q + 1 < t.len() && t[q] is Assign && t[q + 1] is Number {
                    (Some(crate::ast::LiteralView::Number(t[q + 1]->Number_0)), q + 2)
                } else {
                    (None, q)
                };
                let w = dvp.1;
                if w < t.len() && t[w] is Comma {
                    lemma_metadata_defs_at_wf(t, w + 1);
                    match (metadata_defs_at(t, pos), metadata_defs_at(t, w + 1)) {
                        (Some(r), Some(rest)) => {
                            assert forall|i: int|
                                0 <= i < r.0.len() implies crate::transform::wf_param_def(
                                #[trigger] r.0[i],
                            ) by {
                                if i > 0 {
                                    assert(r.0[i] == rest.0[i - 1]);
                                }
                            }
                        },
                        _ => {},
                    }
                } else if w < t.len() && t[w] is RSquare {
                    match metadata_defs_at(t, pos) {
                        Some(r) => {
                            assert forall|i: int|
                                0 <= i < r.0.len() implies crate::transform::wf_param_def(
                                #[trigger] r.0[i],
                            ) by {
                            }
                        },
                        None => {},
                    }
                }
            },
            None => {},
        }
    }
}

/// Parsed declared parameters are well-formed.
pub proof fn lemma_params_def_at_wf(t: Seq<TokenView>, pos: int)
    ensures
        params_def_at(t, pos) matches Some(r) ==> crate::transform::wf_param_defs(r.0),
    decreases t.len() - pos, 2int,
{
    if 0 <= pos <= t.len() {
        if pos < t.len() && t[pos] is Lees {
            lemma_generic_defs_at_wf(t, pos + 1);
        }
        let gens = if pos < t.len() && t[pos] is Lees {
            generic_defs_at(t, pos + 1)
        } else {
            Some((Seq::<ModelParamDefinitionView>::empty(), pos))
        };
        match gens {
            Some((gs, p)) => {
                let q = if pos <= p <= t.len() {
                    p
                } else {
                    pos
                };
                if q < t.len() && t[q] is LSquare {
                    lemma_metadata_defs_at_wf(t, q + 1);
                    match (params_def_at(t, pos), metadata_defs_at(t, q + 1)) {
                        (Some(r), Some(ms)) => {
                            assert forall|i: int|
                                0 <= i < r.0.len() implies crate::transform::wf_param_def(
                                #[trigger] r.0[i],
                            ) by {
                                if i >= gs.len() {
                                    assert(r.0[i] == ms.0[i - gs.len()]);
                                } else {
                                    assert(r.0[i] == gs[i]);
                                }
                            }
                        },
                        _ => {},
                    }
                }
            },
            None => {},
        }
    }
}

/// A parsed type reference is well-formed.
pub proof fn lemma_item_type_at_wf(t: Seq<TokenView>, pos: int)
    ensures
        item_type_at(t, pos) matches Some(r) ==> crate::transform::wf_item_type(r.0),
    decreases t.len() - pos, 0int,
{
    if 0 <= pos < t.len() {
        match t[pos] {
            TokenView::Identifier(_name) => {
                lemma_model_params_at_wf(t, pos + 1);
            },
            TokenView::LParen => {
                lemma_tuple_items_at_wf(t, pos + 1);
                assert(crate::transform::wf_param_defs(Seq::empty()));
            },
            TokenView::LBracket => {
                lemma_record_items_at_wf(t, pos + 1);
                assert(crate::transform::wf_param_defs(Seq::empty()));
            },
            TokenView::KeywordEnum => {
                if pos + 1 < t.len() && t[pos + 1] is LBracket {
                    lemma_enum_items_at_wf(t, pos + 2);
                    assert(crate::transform::wf_param_defs(Seq::empty()));
                }
            },
            _ => {},
        }
    }
}

/// Parsed tuple items are well-formed.
pub proof fn lemma_tuple_items_at_wf(t: Seq<TokenView>, pos: int)
    ensures
        tuple_items_at(t, pos) matches Some(r) ==> crate::transform::wf_tuple_items(r.0),
    decreases t.len() - pos, 1int,
{
    if !(0 <= pos <= t.len()) {
    } else if pos == t.len() || t[pos] is RParen {
    } else {
        if t[pos] is Identifier && pos + 1 < t.len() && t[pos + 1] is Colon {
            lemma_item_type_at_wf(t, pos + 2);
        } else {
            lemma_item_type_at_wf(t, pos);
        }
        match tuple_items_at(t, pos) {
            Some(r) => {
            let itp = if t[pos] is Identifier && pos + 1 < t.len() && t[pos + 1] is Colon {
                match item_type_at(t, pos + 2) {
                    Some((ty, p)) => Some((TupleItemView::NamedItem(IdView::Name(t[pos]->Identifier_0), ty), p)),
                    None => None,
                }
            } else {
                match item_type_at(t, pos) {
                    Some((ty, p)) => Some((TupleItemView::Item(ty), p)),
                    None => None,
                }
            };
            let (it, p) = itp->Some_0;
            assert(crate::transform::wf_tuple_item(it));
            let q = if pos < p <= t.len() { p } else { pos + 1 };
            if q < t.len() && t[q] is Comma {
                lemma_tuple_items_at_wf(t, q + 1);
                let rest = tuple_items_at(t, q + 1)->Some_0.0;
                assert forall|i: int| 0 <= i < r.0.len() implies crate::transform::wf_tuple_item(
                    #[trigger] r.0[i],
                ) by {
                    if i > 0 {
                        assert(r.0[i] == rest[i - 1]);
                    }
                }
            } else {
                assert forall|i: int| 0 <= i < r.0.len() implies crate::transform::wf_tuple_item(
                    #[trigger] r.0[i],
                ) by {
                    assert(r.0[i] == it);
                }
            }
        },
            None => {},
        }
    }
}

/// Parsed record items are well-formed.
pub proof fn lemma_record_items_at_wf(t: Seq<TokenView>, pos: int)
    ensures
        record_items_at(t, pos) matches Some(r) ==> crate::transform::wf_record_items(r.0),
    decreases t.len() - pos, 1int,
{
    if !(0 <= pos <= t.len()) {
    } else if pos == t.len() || t[pos] is RBracket {
    } else {
        if t[pos] is Spread {
            lemma_item_type_at_wf(t, pos + 1);
        } else if t[pos] is Identifier && pos + 1 < t.len() && t[pos + 1] is Colon {
            lemma_item_type_at_wf(t, pos + 2);
        }
        match record_items_at(t, pos) {
            Some(r) => {
            let itp = if t[pos] is Spread {
                match item_type_at(t, pos + 1) {
                    Some((ty, p)) => Some((RecordItemView::Spread(ty), p)),
                    None => None,
                }
            } else if t[pos] is Identifier && pos + 1 < t.len() && t[pos + 1] is Colon {
                match item_type_at(t, pos + 2) {
                    Some((ty, p)) => Some((RecordItemView::Item(IdView::Name(t[pos]->Identifier_0), ty), p)),
                    None => None,
                }
            } else {
                None
            };
            let (it, p) = itp->Some_0;
            assert(crate::transform::wf_record_item(it));
            let q = if pos < p <= t.len() { p } else { pos + 1 };
            lemma_record_items_at_wf(t, q);
            let rest = record_items_at(t, q)->Some_0.0;
            assert forall|i: int| 0 <= i < r.0.len() implies crate::transform::wf_record_item(
                #[trigger] r.0[i],
            ) by {
                if i > 0 {
                    assert(r.0[i] == rest[i - 1]);
                }
            }
        },
            None => {},
        }
    }
}

/// Parsed enum variants are well-formed.
pub proof fn lemma_enum_items_at_wf(t: Seq<TokenView>, pos: int)
    ensures
        enum_items_at(t, pos) matches Some(r) ==> crate::transform::wf_enum_items(r.0),
    decreases t.len() - pos, 1int,
{
    if !(0 <= pos <= t.len()) {
    } else if pos == t.len() || t[pos] is RBracket {
    } else if t[pos] is Identifier {
        if pos + 1 < t.len() && t[pos + 1] is LParen {
            lemma_tuple_items_at_wf(t, pos + 2);
        } else if pos + 1 < t.len() && t[pos + 1] is LBracket {
            lemma_record_items_at_wf(t, pos + 2);
        } else if pos + 2 < t.len() && t[pos + 1] is KeywordEnum && t[pos + 2] is LBracket {
            lemma_enum_items_at_wf(t, pos + 3);
        }
        match enum_items_at(t, pos) {
            Some(r) => {
            let name = IdView::Name(t[pos]->Identifier_0);
            let itp = if pos + 1 < t.len() && t[pos + 1] is LParen {
                match tuple_items_at(t, pos + 2) {
                    Some((items, p)) => if p < t.len() && t[p] is RParen {
                        Some((EnumItemView::Tuple(name, ItemTypeView::Inline(ModelDefinitionView::Tuple(IdView::Inline, items, Seq::empty()))), p + 1))
                    } else {
                        None
                    },
                    None => None,
                }
            } else if pos + 1 < t.len() && t[pos + 1] is LBracket {
                match record_items_at(t, pos + 2) {
                    Some((items, p)) => if p < t.len() && t[p] is RBracket {
                        Some((EnumItemView::Record(name, ItemTypeView::Inline(ModelDefinitionView::Record(IdView::Inline, items, Seq::empty()))), p + 1))
                    } else {
                        None
                    },
                    None => None,
                }
            } else if pos + 2 < t.len() && t[pos + 1] is KeywordEnum && t[pos + 2] is LBracket {
                match enum_items_at(t, pos + 3) {
                    Some((items, p)) => if p < t.len() && t[p] is RBracket {
                        Some((EnumItemView::Enum(name, ItemTypeView::Inline(ModelDefinitionView::Enum(IdView::Inline, items, Seq::empty()))), p + 1))
                    } else {
                        None
                    },
                    None => None,
                }
            } else {
                Some((EnumItemView::Item(name), pos + 1))
            };
            let (it, p) = itp->Some_0;
            assert(crate::transform::wf_param_defs(Seq::empty()));
            assert(crate::transform::wf_enum_item(it));
            let q = if pos < p <= t.len() { p } else { pos + 1 };
            lemma_enum_items_at_wf(t, q);
            let rest = enum_items_at(t, q)->Some_0.0;
            assert forall|i: int| 0 <= i < r.0.len() implies crate::transform::wf_enum_item(
                #[trigger] r.0[i],
            ) by {
                if i > 0 {
                    assert(r.0[i] == rest[i - 1]);
                }
            }
        },
            None => {},
        }
    }
}

/// A parsed declaration is well-formed.
pub proof fn lemma_decl_at_wf(t: Seq<TokenView>, pos: int)
    ensures
        decl_at(t, pos) matches Some(r) ==> crate::transform::wf_scope(r.0),
    decreases t.len() - pos, 2int,
{
    if 0 <= pos < t.len() {
        assert(crate::transform::wf_param_defs(Seq::empty()));
        match t[pos] {
            TokenView::KeywordPackage => {
                if pos + 2 < t.len() && t[pos + 1] is Identifier && t[pos + 2] is LBracket {
                    lemma_decl_list_at_wf(t, pos + 3);
                }
            },
            TokenView::KeywordModel => {
                let (id, p1) = name_at(t, pos + 1);
                assert(crate::transform::wf_id(id));
                lemma_params_def_at_wf(t, p1);
                match params_def_at(t, p1) {
                    Some((defs, p2)) => {
                        if p2 < t.len() && t[p2] is LBracket {
                            lemma_record_items_at_wf(t, p2 + 1);
                        } else if p2 < t.len() && t[p2] is LParen {
                            lemma_tuple_items_at_wf(t, p2 + 1);
                        } else if p2 + 1 < t.len() && t[p2] is KeywordEnum && t[p2
                            + 1] is LBracket {
                            lemma_enum_items_at_wf(t, p2 + 2);
                        } else if p2 < t.len() && t[p2] is Assign {
                            lemma_item_type_at_wf(t, p2 + 1);
                        }
                    },
                    None => {},
                }
            },
            TokenView::KeywordEnum => {
                let (id, p1) = name_at(t, pos + 1);
                assert(crate::transform::wf_id(id));
                lemma_params_def_at_wf(t, p1);
                match params_def_at(t, p1) {
                    Some((defs, p2)) => {
                        if p2 < t.len() && t[p2] is LBracket {
                            lemma_enum_items_at_wf(t, p2 + 1);
                        }
                    },
                    None => {},
                }
            },
            TokenView::KeywordFragment => {
                let (id, p1) = name_at(t, pos + 1);
                assert(crate::transform::wf_id(id));
                lemma_params_def_at_wf(t, p1);
                match params_def_at(t, p1) {
                    Some((defs, p2)) => {
                        if p2 < t.len() && t[p2] is LBracket {
                            lemma_record_items_at_wf(t, p2 + 1);
                        }
                    },
                    None => {},
                }
            },
            _ => {},
        }
    }
}

/// A declaration parsed with recovery is well-formed: either the parsed
/// declaration itself, or an error leaf.
pub proof fn lemma_recovered_decl_at_wf(t: Seq<TokenView>, pos: int)
    ensures
        crate::transform::wf_scope(recovered_decl_at(t, pos).0),
    decreases t.len() - pos, 3int,
{
    lemma_decl_at_wf(t, pos);
}

/// A parsed declaration list is well-formed.
pub proof fn lemma_decl_list_at_wf(t: Seq<TokenView>, pos: int)
    ensures
        crate::transform::wf_scopes(decl_list_at(t, pos).0),
    decreases t.len() - pos, 4int,
{
    if !(0 <= pos < t.len()) || t[pos] is RBracket {
    } else {
        lemma_recovered_decl_at_wf(t, pos);
        let (d, p) = recovered_decl_at(t, pos);
        let q = if pos < p <= t.len() {
            p
        } else {
            pos + 1
        };
        lemma_decl_list_at_wf(t, q);
        let rest = decl_list_at(t, q).0;
        let whole = decl_list_at(t, pos).0;
        assert forall|i: int| 0 <= i < whole.len() implies crate::transform::wf_scope(
            #[trigger] whole[i],
        ) by {
            if i > 0 {
                assert(whole[i] == rest[i - 1]);
            }
        }
    }
}

/// The parsed top level is well-formed.
pub proof fn lemma_top_level_at_wf(t: Seq<TokenView>, pos: int)
    ensures
        crate::transform::wf_scopes(top_level_at(t, pos)),
    decreases t.len() - pos, 5int,
{
    if 0 <= pos <= t.len() {
        lemma_decl_list_at_wf(t, pos);
        let (ds, p) = decl_list_at(t, pos);
        if pos <= p < t.len() {
            lemma_top_level_at_wf(t, p + 1);
            let rest = top_level_at(t, p + 1);
            let whole = top_level_at(t, pos);
            assert forall|i: int| 0 <= i < whole.len() implies crate::transform::wf_scope(
                #[trigger] whole[i],
            ) by {
                if i < ds.len() {
                    assert(whole[i] == ds[i]);
                } else if i > ds.len() {
                    assert(whole[i] == rest[i - ds.len() - 1]);
                }
            }
        }
    }
}

// ---------------------------------------------------------------------------
// The executable parser.
// ---------------------------------------------------------------------------

/// The text of one token.
fn token_text_exec(t: &Token) -> (r: String)
    ensures
        r@ == token_text(t@),
{
    match t {
        Token::KeywordPackage => "package".to_owned(),
        Token::KeywordModel => "model".to_owned(),
        Token::KeywordEnum => "enum".to_owned(),
        Token::KeywordFragment => "fragment".to_owned(),
        Token::KeywordScalar => "scalar".to_owned(),
        Token::Identifier(s) => s.clone(),
        Token::Number(s) => s.clone(),
        Token::LParen => "(".to_owned(),
        Token::RParen => ")".to_owned(),
        Token::LBracket => "{".to_owned(),
        Token::RBracket => "}".to_owned(),
        Token::Lees => "<".to_owned(),
        Token::Greater => ">".to_owned(),
        Token::LSquare => "[".to_owned(),
        Token::RSquare => "]".to_owned(),
        Token::Question => "?".to_owned(),
        Token::Assign => "=".to_owned(),
        Token::Semicolon => ";".to_owned(),
        Token::Colon => ":".to_owned(),
        Token::Comma => ",".to_owned(),
        Token::Spread => "...".to_owned(),
        Token::Error(_) => "invalid input".to_owned(),
    }
}

fn is_sync_token_exec(t: &Token) -> (r: bool)
    ensures
        r == is_sync_token(t@),
{
    match t {
        Token::KeywordPackage => true,
        Token::KeywordModel => true,
        Token::KeywordEnum => true,
        Token::KeywordFragment => true,
        Token::KeywordScalar => true,
        Token::RBracket => true,
        _ => false,
    }
}


/// The supplied generic arguments after `<`, including the closing `>`.
#[verifier::loop_isolation(false)]
#[verifier::rlimit(100)]
fn parse_generic_args(tokens: &Vec<Token>, pos: usize) -> (r: Option<(Vec<ModelParam>, usize)>)
    requires
        pos <= tokens@.len(),
    ensures
        match r {
            Some(rp) => generic_args_at(tokens_view(tokens@), pos as int) == Some(
                (crate::model::model_params_view(rp.0@), rp.1 as int),
            ) && pos < rp.1 <= tokens@.len(),
            None => generic_args_at(tokens_view(tokens@), pos as int) is None,
        },
    decreases tokens@.len() - pos, 1int,
{
    let ghost tv = tokens_view(tokens@);
    proof {
        crate::lexer::lemma_tokens_view_all(tokens@);
        assert(crate::model::model_params_view(Seq::<ModelParam>::empty()) =~= Seq::<
            ModelParamView,
        >::empty());
    }
    let (ty, p) = match parse_item_type(tokens, pos) {
        Some(x) => x,
        None => {
            return None;
        },
    };
    let item = ModelParam::Generic(ty);
    let ghost itv = crate::model::model_param_view(item);
    let comma = p < tokens.len() && (match &tokens[p] {
        Token::Comma => true,
        _ => false,
    });
    if comma {
        let (rest, pend) = match parse_generic_args(tokens, p + 1) {
            Some(x) => x,
            None => {
                return None;
            },
        };
        let mut out: Vec<ModelParam> = Vec::new();
        let ghost restv = rest@;
        out.push(item);
        let mut rest = rest;
        out.append(&mut rest);
        proof {
            assert(out@ =~= seq![out@[0]] + restv);
            crate::model::lemma_model_params_view_concat(seq![out@[0]], restv);
            assert(crate::model::model_params_view(seq![out@[0]]) =~= Seq::<
                ModelParamView,
            >::empty().push(itv)) by {
                assert(seq![out@[0]].drop_last() =~= Seq::<ModelParam>::empty());
            }
            assert(crate::model::model_params_view(out@) =~= seq![itv]
                + crate::model::model_params_view(restv));
        }
        Some((out, pend))
    } else {
        let closing = p < tokens.len() && (match &tokens[p] {
            Token::Greater => true,
            _ => false,
        });
        if !closing {
            return None;
        }
        let mut out: Vec<ModelParam> = Vec::new();
        out.push(item);
        proof {
            assert(out@.drop_last() =~= Seq::<ModelParam>::empty());
            assert(crate::model::model_params_view(out@) =~= seq![itv]);
        }
        Some((out, p + 1))
    }
}

/// The supplied metadata arguments after `[`, including the closing `]`.
#[verifier::loop_isolation(false)]
#[verifier::rlimit(100)]
fn parse_metadata_args(tokens: &Vec<Token>, pos: usize) -> (r: Option<(Vec<ModelParam>, usize)>)
    requires
        pos <= tokens@.len(),
    ensures
        match r {
            Some(rp) => metadata_args_at(tokens_view(tokens@), pos as int) == Some(
                (crate::model::model_params_view(rp.0@), rp.1 as int),
            ) && pos < rp.1 <= tokens@.len(),
            None => metadata_args_at(tokens_view(tokens@), pos as int) is None,
        },
    decreases tokens@.len() - pos,
{
    let ghost tv = tokens_view(tokens@);
    proof {
        crate::lexer::lemma_tokens_view_all(tokens@);
        assert(crate::model::model_params_view(Seq::<ModelParam>::empty()) =~= Seq::<
            ModelParamView,
        >::empty());
    }
    if !(tokens.len() - pos > 3) {
        return None;
    }
    let name = match &tokens[pos] {
        Token::Identifier(n) => n.clone(),
        _ => {
            return None;
        },
    };
    let assigned = match &tokens[pos + 1] {
        Token::Assign => true,
        _ => false,
    };
    if !assigned {
        return None;
    }
    let value = match &tokens[pos + 2] {
        Token::Number(v) => v.clone(),
        _ => {
            return None;
        },
    };
    let item = ModelParam::Metadata(Id::Name(name), crate::ast::Literal::Number(value));
    let ghost itv = crate::model::model_param_view(item);
    let q = pos + 3;
    let comma = q < tokens.len() && (match &tokens[q] {
        Token::Comma => true,
        _ => false,
    });
    if comma {
        let (rest, pend) = match parse_metadata_args(tokens, q + 1) {
            Some(x) => x,
            None => {
                return None;
            },
        };
        let mut out: Vec<ModelParam> = Vec::new();
        let ghost restv = rest@;
        out.push(item);
        let mut rest = rest;
        out.append(&mut rest);
        proof {
            assert(out@ =~= seq![out@[0]] + restv);
            crate::model::lemma_model_params_view_concat(seq![out@[0]], restv);
            assert(crate::model::model_params_view(seq![out@[0]]) =~= Seq::<
                ModelParamView,
            >::empty().push(itv)) by {
                assert(seq![out@[0]].drop_last() =~= Seq::<ModelParam>::empty());
            }
            assert(crate::model::model_params_view(out@) =~= seq![itv]
                + crate::model::model_params_view(restv));
        }
        Some((out, pend))
    } else {
        let closing = q < tokens.len() && (match &tokens[q] {
            Token::RSquare => true,
            _ => false,
        });
        if !closing {
            return None;
        }
        let mut out: Vec<ModelParam> = Vec::new();
        out.push(item);
        proof {
            assert(out@.drop_last() =~= Seq::<ModelParam>::empty());
            assert(crate::model::model_params_view(out@) =~= seq![itv]);
        }
        Some((out, q + 1))
    }
}

/// The supplied parameters of a type reference, possibly empty.
#[verifier::loop_isolation(false)]
#[verifier::rlimit(100)]
fn parse_model_params(tokens: &Vec<Token>, pos: usize) -> (r: Option<(Vec<ModelParam>, usize)>)
    requires
        pos <= tokens@.len(),
    ensures
        match r {
            Some(rp) => model_params_at(tokens_view(tokens@), pos as int) == Some(
                (crate::model::model_params_view(rp.0@), rp.1 as int),
            ) && pos <= rp.1 <= tokens@.len(),
            None => model_params_at(tokens_view(tokens@), pos as int) is None,
        },
    decreases tokens@.len() - pos, 2int,
{
    let ghost tv = tokens_view(tokens@);
    proof {
        crate::lexer::lemma_tokens_view_all(tokens@);
        assert(crate::model::model_params_view(Seq::<ModelParam>::empty()) =~= Seq::<
            ModelParamView,
        >::empty());
    }
    let opening = pos < tokens.len() && (match &tokens[pos] {
        Token::Lees => true,
        _ => false,
    });
    let (gens, p) = if opening {
        match parse_generic_args(tokens, pos + 1) {
            Some(x) => x,
            None => {
                return None;
            },
        }
    } else {
        (Vec::new(), pos)
    };
    let squared = p < tokens.len() && (match &tokens[p] {
        Token::LSquare => true,
        _ => false,
    });
    if squared {
        let (metas, pend) = match parse_metadata_args(tokens, p + 1) {
            Some(x) => x,
            None => {
                return None;
            },
        };
        let ghost gv = gens@;
        let ghost mv = metas@;
        let mut out = gens;
        let mut metas = metas;
        out.append(&mut metas);
        proof {
            assert(out@ =~= gv + mv);
            crate::model::lemma_model_params_view_concat(gv, mv);
        }
        Some((out, pend))
    } else {
        Some((gens, p))
    }
}

/// A type reference at `pos`.
#[verifier::loop_isolation(false)]
#[verifier::rlimit(100)]
fn parse_item_type(tokens: &Vec<Token>, pos: usize) -> (r: Option<(ItemType, usize)>)
    requires
        pos <= tokens@.len(),
    ensures
        match r {
            Some(rp) => item_type_at(tokens_view(tokens@), pos as int) == Some(
                (item_type_view(rp.0), rp.1 as int),
            ) && pos < rp.1 <= tokens@.len() && crate::transform::wf_item_type(
                item_type_view(rp.0),
            ),
            None => item_type_at(tokens_view(tokens@), pos as int) is None,
        },
    decreases tokens@.len() - pos, 0int,
{
    let ghost tv = tokens_view(tokens@);
    proof {
        crate::lexer::lemma_tokens_view_all(tokens@);
        lemma_item_type_at_wf(tv, pos as int);
    }
    if pos >= tokens.len() {
        return None;
    }
    match &tokens[pos] {
        Token::Identifier(name) => {
            let (params, p) = match parse_model_params(tokens, pos + 1) {
                Some(x) => x,
                None => {
                    return None;
                },
            };
            Some((ItemType::Model(Id::Name(name.clone()), params), p))
        },
        Token::LParen => {
            let (items, p) = match parse_tuple_items(tokens, pos + 1) {
                Some(x) => x,
                None => {
                    return None;
                },
            };
            if p < tokens.len() {
                match &tokens[p] {
                    Token::RParen => {
                        let def = ModelDefinition::Tuple(Id::Inline, items, Vec::new());
                        proof {
                            assert(crate::model::param_defs_view(
                                Seq::<crate::model::ModelParamDefinition>::empty(),
                            ) =~= Seq::<ModelParamDefinitionView>::empty());
                        }
                        Some((ItemType::Inline(def), p + 1))
                    },
                    _ => None,
                }
            } else {
                None
            }
        },
        Token::LBracket => {
            let (items, p) = match parse_record_items(tokens, pos + 1) {
                Some(x) => x,
                None => {
                    return None;
                },
            };
            if p < tokens.len() {
                match &tokens[p] {
                    Token::RBracket => {
                        let def = ModelDefinition::Record(Id::Inline, items, Vec::new());
                        proof {
                            assert(crate::model::param_defs_view(
                                Seq::<crate::model::ModelParamDefinition>::empty(),
                            ) =~= Seq::<ModelParamDefinitionView>::empty());
                        }
                        Some((ItemType::Inline(def), p + 1))
                    },
                    _ => None,
                }
            } else {
                None
            }
        },
        Token::KeywordEnum => {
            if pos + 1 < tokens.len() {
                let braced = match &tokens[pos + 1] {
                    Token::LBracket => true,
                    _ => false,
                };
                if !braced {
                    return None;
                }
                let (items, p) = match parse_enum_items(tokens, pos + 2) {
                    Some(x) => x,
                    None => {
                        return None;
                    },
                };
                if p < tokens.len() {
                    match &tokens[p] {
                        Token::RBracket => {
                            let def = ModelDefinition::Enum(Id::Inline, items, Vec::new());
                            proof {
                                assert(crate::model::param_defs_view(
                                    Seq::<crate::model::ModelParamDefinition>::empty(),
                                ) =~= Seq::<ModelParamDefinitionView>::empty());
                            }
                            Some((ItemType::Inline(def), p + 1))
                        },
                        _ => None,
                    }
                } else {
                    None
                }
            } else {
                None
            }
        },
        _ => None,
    }
}

/// The comma-separated items of a tuple body.
#[verifier::loop_isolation(false)]
#[verifier::rlimit(100)]
fn parse_tuple_items(tokens: &Vec<Token>, pos: usize) -> (r: Option<(Vec<TupleItem>, usize)>)
    requires
        pos <= tokens@.len(),
    ensures
        match r {
            Some(rp) => tuple_items_at(tokens_view(tokens@), pos as int) == Some(
                (tuple_items_view(rp.0@), rp.1 as int),
            ) && pos <= rp.1 <= tokens@.len() && crate::transform::wf_tuple_items(
                tuple_items_view(rp.0@),
            ),
            None => tuple_items_at(tokens_view(tokens@), pos as int) is None,
        },
    decreases tokens@.len() - pos, 1int,
{
    let ghost tv = tokens_view(tokens@);
    proof {
        crate::lexer::lemma_tokens_view_all(tokens@);
        lemma_tuple_items_at_wf(tv, pos as int);
        assert(tuple_items_view(Seq::<TupleItem>::empty()) =~= Seq::<TupleItemView>::empty());
    }
    if pos >= tokens.len() {
        return Some((Vec::new(), pos));
    }
    let closing = match &tokens[pos] {
        Token::RParen => true,
        _ => false,
    };
    if closing {
        return Some((Vec::new(), pos));
    }
    let named = match &tokens[pos] {
        Token::Identifier(_) => if pos + 1 < tokens.len() {
            match &tokens[pos + 1] {
                Token::Colon => true,
                _ => false,
            }
        } else {
            false
        },
        _ => false,
    };
    let (item, p) = if named {
        let name = match &tokens[pos] {
            Token::Identifier(n) => n.clone(),
            _ => {
                proof {
                    assert(false);
                }
                String::new()
            },
        };
        let (ty, p) = match parse_item_type(tokens, pos + 2) {
            Some(x) => x,
            None => {
                return None;
            },
        };
        (TupleItem::NamedItem(Id::Name(name), ty), p)
    } else {
        let (ty, p) = match parse_item_type(tokens, pos) {
            Some(x) => x,
            None => {
                return None;
            },
        };
        (TupleItem::Item(ty), p)
    };
    let ghost itv = tuple_item_view(item);
    let comma = if p < tokens.len() {
        match &tokens[p] {
            Token::Comma => true,
            _ => false,
        }
    } else {
        false
    };
    if comma {
        let (rest, pend) = match parse_tuple_items(tokens, p + 1) {
            Some(x) => x,
            None => {
                return None;
            },
        };
        if rest.len() == 0 {
            return None;
        }
        let mut out: Vec<TupleItem> = Vec::new();
        let ghost restv = rest@;
        out.push(item);
        let mut rest = rest;
        out.append(&mut rest);
        proof {
            assert(out@ =~= seq![out@[0]] + restv);
            crate::model::lemma_tuple_items_view_concat(seq![out@[0]], restv);
            assert(tuple_items_view(seq![out@[0]]) =~= Seq::<
                TupleItemView,
            >::empty().push(itv)) by {
                assert(seq![out@[0]].drop_last() =~= Seq::<TupleItem>::empty());
            }
            assert(tuple_items_view(out@) =~= seq![itv] + tuple_items_view(restv));
        }
        Some((out, pend))
    } else {
        let mut out: Vec<TupleItem> = Vec::new();
        out.push(item);
        proof {
            assert(out@.drop_last() =~= Seq::<TupleItem>::empty());
            assert(tuple_items_view(out@) =~= seq![itv]);
        }
        Some((out, p))
    }
}

/// The items of a record-shaped body.
#[verifier::loop_isolation(false)]
#[verifier::rlimit(100)]
fn parse_record_items(tokens: &Vec<Token>, pos: usize) -> (r: Option<(Vec<RecordItem>, usize)>)
    requires
        pos <= tokens@.len(),
    ensures
        match r {
            Some(rp) => record_items_at(tokens_view(tokens@), pos as int) == Some(
                (record_items_view(rp.0@), rp.1 as int),
            ) && pos <= rp.1 <= tokens@.len() && crate::transform::wf_record_items(
                record_items_view(rp.0@),
            ),
            None => record_items_at(tokens_view(tokens@), pos as int) is None,
        },
    decreases tokens@.len() - pos, 1int,
{
    let ghost tv = tokens_view(tokens@);
    proof {
        crate::lexer::lemma_tokens_view_all(tokens@);
        lemma_record_items_at_wf(tv, pos as int);
        assert(record_items_view(Seq::<RecordItem>::empty()) =~= Seq::<RecordItemView>::empty());
    }
    if pos >= tokens.len() {
        return Some((Vec::new(), pos));
    }
    let closing = match &tokens[pos] {
        Token::RBracket => true,
        _ => false,
    };
    if closing {
        return Some((Vec::new(), pos));
    }
    let spread = match &tokens[pos] {
        Token::Spread => true,
        _ => false,
    };
    let (item, p) = if spread {
        let (ty, p) = match parse_item_type(tokens, pos + 1) {
            Some(x) => x,
            None => {
                return None;
            },
        };
        (RecordItem::Spread(ty), p)
    } else {
        let named = match &tokens[pos] {
            Token::Identifier(_) => if pos + 1 < tokens.len() {
                match &tokens[pos + 1] {
                    Token::Colon => true,
                    _ => false,
                }
            } else {
                false
            },
            _ => false,
        };
        if !named {
            return None;
        }
        let name = match &tokens[pos] {
            Token::Identifier(n) => n.clone(),
            _ => {
                proof {
                    assert(false);
                }
                String::new()
            },
        };
        let (ty, p) = match parse_item_type(tokens, pos + 2) {
            Some(x) => x,
            None => {
                return None;
            },
        };
        (RecordItem::Item(Id::Name(name), ty), p)
    };
    let ghost itv = record_item_view(item);
    let (rest, pend) = match parse_record_items(tokens, p) {
        Some(x) => x,
        None => {
            return None;
        },
    };
    let mut out: Vec<RecordItem> = Vec::new();
    let ghost restv = rest@;
    out.push(item);
    let mut rest = rest;
    out.append(&mut rest);
    proof {
        assert(out@ =~= seq![out@[0]] + restv);
        crate::model::lemma_record_items_view_concat(seq![out@[0]], restv);
        assert(record_items_view(seq![out@[0]]) =~= Seq::<RecordItemView>::empty().push(itv)) by {
            assert(seq![out@[0]].drop_last() =~= Seq::<RecordItem>::empty());
        }
        assert(record_items_view(out@) =~= seq![itv] + record_items_view(restv));
    }
    Some((out, pend))
}

/// The variants of an enum body.
#[verifier::loop_isolation(false)]
#[verifier::rlimit(100)]
fn parse_enum_items(tokens: &Vec<Token>, pos: usize) -> (r: Option<(Vec<EnumItem>, usize)>)
    requires
        pos <= tokens@.len(),
    ensures
        match r {
            Some(rp) => enum_items_at(tokens_view(tokens@), pos as int) == Some(
                (enum_items_view(rp.0@), rp.1 as int),
            ) && pos <= rp.1 <= tokens@.len() && crate::transform::wf_enum_items(
                enum_items_view(rp.0@),
            ),
            None => enum_items_at(tokens_view(tokens@), pos as int) is None,
        },
    decreases tokens@.len() - pos, 1int,
{
    let ghost tv = tokens_view(tokens@);
    proof {
        crate::lexer::lemma_tokens_view_all(tokens@);
        lemma_enum_items_at_wf(tv, pos as int);
        assert(enum_items_view(Seq::<EnumItem>::empty()) =~= Seq::<EnumItemView>::empty());
    }
    if pos >= tokens.len() {
        return Some((Vec::new(), pos));
    }
    let closing = match &tokens[pos] {
        Token::RBracket => true,
        _ => false,
    };
    if closing {
        return Some((Vec::new(), pos));
    }
    let name = match &tokens[pos] {
        Token::Identifier(n) => n.clone(),
        _ => {
            return None;
        },
    };
    let tuple_payload = pos + 1 < tokens.len() && (match &tokens[pos + 1] {
        Token::LParen => true,
        _ => false,
    });
    let record_payload = pos + 1 < tokens.len() && (match &tokens[pos + 1] {
        Token::LBracket => true,
        _ => false,
    });
    let enum_payload = tokens.len() - pos > 2 && (match &tokens[pos + 1] {
        Token::KeywordEnum => true,
        _ => false,
    }) && (match &tokens[pos + 2] {
        Token::LBracket => true,
        _ => false,
    });
    let (item, p) = if tuple_payload {
        let (items, p) = match parse_tuple_items(tokens, pos + 2) {
            Some(x) => x,
            None => {
                return None;
            },
        };
        if !(p < tokens.len() && (match &tokens[p] {
            Token::RParen => true,
            _ => false,
        })) {
            return None;
        }
        let def = ModelDefinition::Tuple(Id::Inline, items, Vec::new());
        (EnumItem::Tuple(Id::Name(name), ItemType::Inline(def)), p + 1)
    } else if record_payload {
        let (items, p) = match parse_record_items(tokens, pos + 2) {
            Some(x) => x,
            None => {
                return None;
            },
        };
        if !(p < tokens.len() && (match &tokens[p] {
            Token::RBracket => true,
            _ => false,
        })) {
            return None;
        }
        let def = ModelDefinition::Record(Id::Inline, items, Vec::new());
        (EnumItem::Record(Id::Name(name), ItemType::Inline(def)), p + 1)
    } else if enum_payload {
        let (items, p) = match parse_enum_items(tokens, pos + 3) {
            Some(x) => x,
            None => {
                return None;
            },
        };
        if !(p < tokens.len() && (match &tokens[p] {
            Token::RBracket => true,
            _ => false,
        })) {
            return None;
        }
        let def = ModelDefinition::Enum(Id::Inline, items, Vec::new());
        (EnumItem::Enum(Id::Name(name), ItemType::Inline(def)), p + 1)
    } else {
        (EnumItem::Item(Id::Name(name)), pos + 1)
    };
    proof {
        assert(crate::model::param_defs_view(Seq::<crate::model::ModelParamDefinition>::empty())
            =~= Seq::<ModelParamDefinitionView>::empty());
    }
    let ghost itv = enum_item_view(item);
    let (rest, pend) = match parse_enum_items(tokens, p) {
        Some(x) => x,
        None => {
            return None;
        },
    };
    let mut out: Vec<EnumItem> = Vec::new();
    let ghost restv = rest@;
    out.push(item);
    let mut rest = rest;
    out.append(&mut rest);
    proof {
        assert(out@ =~= seq![out@[0]] + restv);
        crate::model::lemma_enum_items_view_concat(seq![out@[0]], restv);
        assert(enum_items_view(seq![out@[0]]) =~= Seq::<EnumItemView>::empty().push(itv)) by {
            assert(seq![out@[0]].drop_last() =~= Seq::<EnumItem>::empty());
        }
        assert(enum_items_view(out@) =~= seq![itv] + enum_items_view(restv));
    }
    Some((out, pend))
}


/// The declared generic parameters after `<`, including the closing `>`.
#[verifier::loop_isolation(false)]
#[verifier::rlimit(100)]
fn parse_generic_defs(tokens: &Vec<Token>, pos: usize) -> (r: Option<(
    Vec<ModelParamDefinition>,
    usize,
)>)
    requires
        pos <= tokens@.len(),
    ensures
        match r {
            Some(rp) => generic_defs_at(tokens_view(tokens@), pos as int) == Some(
                (crate::model::param_defs_view(rp.0@), rp.1 as int),
            ) && pos < rp.1 <= tokens@.len(),
            None => generic_defs_at(tokens_view(tokens@), pos as int) is None,
        },
    decreases tokens@.len() - pos, 1int,
{
    let ghost tv = tokens_view(tokens@);
    proof {
        crate::lexer::lemma_tokens_view_all(tokens@);
        assert(crate::model::param_defs_view(Seq::<ModelParamDefinition>::empty()) =~= Seq::<
            ModelParamDefinitionView,
        >::empty());
    }
    if pos >= tokens.len() {
        return None;
    }
    let name = match &tokens[pos] {
        Token::Identifier(n) => n.clone(),
        _ => {
            return None;
        },
    };
    let constrained = pos + 1 < tokens.len() && (match &tokens[pos + 1] {
        Token::Colon => true,
        _ => false,
    });
    let (ct, p) = if constrained {
        let (ty, p) = match parse_item_type(tokens, pos + 2) {
            Some(x) => x,
            None => {
                return None;
            },
        };
        (Some(ty), p)
    } else {
        (None, pos + 1)
    };
    let item = ModelParamDefinition::Generic { id: Id::Name(name), constraint_type: ct };
    let ghost itv = crate::model::param_def_view(item);
    let comma = p < tokens.len() && (match &tokens[p] {
        Token::Comma => true,
        _ => false,
    });
    if comma {
        let (rest, pend) = match parse_generic_defs(tokens, p + 1) {
            Some(x) => x,
            None => {
                return None;
            },
        };
        let mut out: Vec<ModelParamDefinition> = Vec::new();
        let ghost restv = rest@;
        out.push(item);
        let mut rest = rest;
        out.append(&mut rest);
        proof {
            assert(out@ =~= seq![out@[0]] + restv);
            crate::model::lemma_param_defs_view_concat(seq![out@[0]], restv);
            assert(crate::model::param_defs_view(seq![out@[0]]) =~= Seq::<
                ModelParamDefinitionView,
            >::empty().push(itv)) by {
                assert(seq![out@[0]].drop_last() =~= Seq::<ModelParamDefinition>::empty());
            }
            assert(crate::model::param_defs_view(out@) =~= seq![itv]
                + crate::model::param_defs_view(restv));
        }
        Some((out, pend))
    } else {
        let closing = p < tokens.len() && (match &tokens[p] {
            Token::Greater => true,
            _ => false,
        });
        if !closing {
            return None;
        }
        let mut out: Vec<ModelParamDefinition> = Vec::new();
        out.push(item);
        proof {
            assert(out@.drop_last() =~= Seq::<ModelParamDefinition>::empty());
            assert(crate::model::param_defs_view(out@) =~= seq![itv]);
        }
        Some((out, p + 1))
    }
}

/// The declared metadata parameters after `[`, including the closing `]`.
#[verifier::loop_isolation(false)]
#[verifier::rlimit(100)]
fn parse_metadata_defs(tokens: &Vec<Token>, pos: usize) -> (r: Option<(
    Vec<ModelParamDefinition>,
    usize,
)>)
    requires
        pos <= tokens@.len(),
    ensures
        match r {
            Some(rp) => metadata_defs_at(tokens_view(tokens@), pos as int) == Some(
                (crate::model::param_defs_view(rp.0@), rp.1 as int),
            ) && pos < rp.1 <= tokens@.len(),
            None => metadata_defs_at(tokens_view(tokens@), pos as int) is None,
        },
    decreases tokens@.len() - pos, 1int,
{
    let ghost tv = tokens_view(tokens@);
    proof {
        crate::lexer::lemma_tokens_view_all(tokens@);
        assert(crate::model::param_defs_view(Seq::<ModelParamDefinition>::empty()) =~= Seq::<
            ModelParamDefinitionView,
        >::empty());
    }
    if !(pos < tokens.len() && tokens.len() - pos > 1) {
        return None;
    }
    let name = match &tokens[pos] {
        Token::Identifier(n) => n.clone(),
        _ => {
            return None;
        },
    };
    let typed = match &tokens[pos + 1] {
        Token::Colon => true,
        _ => false,
    };
    if !typed {
        return None;
    }
    let (ty, p) = match parse_item_type(tokens, pos + 2) {
        Some(x) => x,
        None => {
            return None;
        },
    };
    let defaulted = tokens.len() - p > 1 && (match &tokens[p] {
        Token::Assign => true,
        _ => false,
    }) && (match &tokens[p + 1] {
        Token::Number(_) => true,
        _ => false,
    });
    let (dv, w) = if defaulted {
        let value = match &tokens[p + 1] {
            Token::Number(v) => v.clone(),
            _ => {
                proof {
                    assert(false);
                }
                String::new()
            },
        };
        (Some(crate::ast::Literal::Number(value)), p + 2)
    } else {
        (None, p)
    };
    let item = ModelParamDefinition::Metadata {
        id: Id::Name(name),
        type_id: ty,
        def_value: dv,
    };
    let ghost itv = crate::model::param_def_view(item);
    let comma = w < tokens.len() && (match &tokens[w] {
        Token::Comma => true,
        _ => false,
    });
    if comma {
        let (rest, pend) = match parse_metadata_defs(tokens, w + 1) {
            Some(x) => x,
            None => {
                return None;
            },
        };
        let mut out: Vec<ModelParamDefinition> = Vec::new();
        let ghost restv = rest@;
        out.push(item);
        let mut rest = rest;
        out.append(&mut rest);
        proof {
            assert(out@ =~= seq![out@[0]] + restv);
            crate::model::lemma_param_defs_view_concat(seq![out@[0]], restv);
            assert(crate::model::param_defs_view(seq![out@[0]]) =~= Seq::<
                ModelParamDefinitionView,
            >::empty().push(itv)) by {
                assert(seq![out@[0]].drop_last() =~= Seq::<ModelParamDefinition>::empty());
            }
            assert(crate::model::param_defs_view(out@) =~= seq![itv]
                + crate::model::param_defs_view(restv));
        }
        Some((out, pend))
    } else {
        let closing = w < tokens.len() && (match &tokens[w] {
            Token::RSquare => true,
            _ => false,
        });
        if !closing {
            return None;
        }
        let mut out: Vec<ModelParamDefinition> = Vec::new();
        out.push(item);
        proof {
            assert(out@.drop_last() =~= Seq::<ModelParamDefinition>::empty());
            assert(crate::model::param_defs_view(out@) =~= seq![itv]);
        }
        Some((out, w + 1))
    }
}

/// The declared parameters of a model, possibly empty.
#[verifier::loop_isolation(false)]
#[verifier::rlimit(100)]
fn parse_params_def(tokens: &Vec<Token>, pos: usize) -> (r: Option<(
    Vec<ModelParamDefinition>,
    usize,
)>)
    requires
        pos <= tokens@.len(),
    ensures
        match r {
            Some(rp) => params_def_at(tokens_view(tokens@), pos as int) == Some(
                (crate::model::param_defs_view(rp.0@), rp.1 as int),
            ) && pos <= rp.1 <= tokens@.len(),
            None => params_def_at(tokens_view(tokens@), pos as int) is None,
        },
    decreases tokens@.len() - pos, 2int,
{
    let ghost tv = tokens_view(tokens@);
    proof {
        crate::lexer::lemma_tokens_view_all(tokens@);
        assert(crate::model::param_defs_view(Seq::<ModelParamDefinition>::empty()) =~= Seq::<
            ModelParamDefinitionView,
        >::empty());
    }
    let opening = pos < tokens.len() && (match &tokens[pos] {
        Token::Lees => true,
        _ => false,
    });
    let (gens, p) = if opening {
        match parse_generic_defs(tokens, pos + 1) {
            Some(x) => x,
            None => {
                return None;
            },
        }
    } else {
        (Vec::new(), pos)
    };
    let squared = p < tokens.len() && (match &tokens[p] {
        Token::LSquare => true,
        _ => false,
    });
    if squared {
        let (metas, pend) = match parse_metadata_defs(tokens, p + 1) {
            Some(x) => x,
            None => {
                return None;
            },
        };
        let ghost gv = gens@;
        let ghost mv = metas@;
        let mut out = gens;
        let mut metas = metas;
        out.append(&mut metas);
        proof {
            assert(out@ =~= gv + mv);
            crate::model::lemma_param_defs_view_concat(gv, mv);
        }
        Some((out, pend))
    } else {
        Some((gens, p))
    }
}

/// One declaration at `pos`, if one parses there.
#[verifier::loop_isolation(false)]
#[verifier::rlimit(100)]
fn try_declaration(tokens: &Vec<Token>, pos: usize) -> (r: Option<(Scope, usize)>)
    requires
        pos <= tokens@.len(),
    ensures
        match r {
            Some(rp) => decl_at(tokens_view(tokens@), pos as int) == Some(
                (scope_view(rp.0), rp.1 as int),
            ) && pos < rp.1 <= tokens@.len() && crate::transform::wf_scope(scope_view(rp.0)),
            None => decl_at(tokens_view(tokens@), pos as int) is None,
        },
    decreases tokens@.len() - pos, 2int,
{
    let ghost tv = tokens_view(tokens@);
    proof {
        crate::lexer::lemma_tokens_view_all(tokens@);
        lemma_decl_at_wf(tv, pos as int);
        assert(crate::model::param_defs_view(Seq::<crate::model::ModelParamDefinition>::empty())
            =~= Seq::<ModelParamDefinitionView>::empty());
    }
    if pos >= tokens.len() {
        return None;
    }
    match &tokens[pos] {
        Token::KeywordPackage => {
            if !(tokens.len() - pos > 2) {
                return None;
            }
            let name = match &tokens[pos + 1] {
                Token::Identifier(n) => n.clone(),
                _ => {
                    return None;
                },
            };
            let braced = match &tokens[pos + 2] {
                Token::LBracket => true,
                _ => false,
            };
            if !braced {
                return None;
            }
            let (items, p) = parse_declarations(tokens, pos + 3);
            if p < tokens.len() {
                match &tokens[p] {
                    Token::RBracket => Some((Scope::Package(Id::Name(name), items), p + 1)),
                    _ => None,
                }
            } else {
                None
            }
        },
        Token::KeywordModel => {
            let (id, p1) = parse_opt_name(tokens, pos + 1);
            let (defs, p1) = match parse_params_def(tokens, p1) {
                Some(x) => x,
                None => {
                    return None;
                },
            };
            let shape = if p1 < tokens.len() {
                match &tokens[p1] {
                    Token::LBracket => 1usize,
                    Token::LParen => 2usize,
                    Token::KeywordEnum => 3usize,
                    Token::Assign => 4usize,
                    _ => 0usize,
                }
            } else {
                0usize
            };
            if shape == 1 {
                let (items, p) = match parse_record_items(tokens, p1 + 1) {
                    Some(x) => x,
                    None => {
                        return None;
                    },
                };
                if p < tokens.len() && (match &tokens[p] {
                    Token::RBracket => true,
                    _ => false,
                }) {
                    Some((Scope::Model(ModelDefinition::Record(id, items, defs)), p + 1))
                } else {
                    None
                }
            } else if shape == 2 {
                let (items, p) = match parse_tuple_items(tokens, p1 + 1) {
                    Some(x) => x,
                    None => {
                        return None;
                    },
                };
                if p < tokens.len() && (match &tokens[p] {
                    Token::RParen => true,
                    _ => false,
                }) {
                    Some((Scope::Model(ModelDefinition::Tuple(id, items, defs)), p + 1))
                } else {
                    None
                }
            } else if shape == 3 {
                let braced = p1 + 1 < tokens.len() && (match &tokens[p1 + 1] {
                    Token::LBracket => true,
                    _ => false,
                });
                if !braced {
                    return None;
                }
                let (items, p) = match parse_enum_items(tokens, p1 + 2) {
                    Some(x) => x,
                    None => {
                        return None;
                    },
                };
                if p < tokens.len() && (match &tokens[p] {
                    Token::RBracket => true,
                    _ => false,
                }) {
                    Some((Scope::Model(ModelDefinition::Enum(id, items, defs)), p + 1))
                } else {
                    None
                }
            } else if shape == 4 {
                let (ty, p) = match parse_item_type(tokens, p1 + 1) {
                    Some(x) => x,
                    None => {
                        return None;
                    },
                };
                if p < tokens.len() && (match &tokens[p] {
                    Token::Semicolon => true,
                    _ => false,
                }) {
                    Some(
                        (
                            Scope::Model(ModelDefinition::Alias(id, defs, Box::new(ty))),
                            p + 1,
                        ),
                    )
                } else {
                    None
                }
            } else {
                None
            }
        },
        Token::KeywordEnum => {
            let (id, p1) = parse_opt_name(tokens, pos + 1);
            let (defs, p1) = match parse_params_def(tokens, p1) {
                Some(x) => x,
                None => {
                    return None;
                },
            };
            let braced = p1 < tokens.len() && (match &tokens[p1] {
                Token::LBracket => true,
                _ => false,
            });
            if !braced {
                return None;
            }
            let (items, p) = match parse_enum_items(tokens, p1 + 1) {
                Some(x) => x,
                None => {
                    return None;
                },
            };
            if p < tokens.len() && (match &tokens[p] {
                Token::RBracket => true,
                _ => false,
            }) {
                Some((Scope::Model(ModelDefinition::Enum(id, items, defs)), p + 1))
            } else {
                None
            }
        },
        Token::KeywordFragment => {
            let (id, p1) = parse_opt_name(tokens, pos + 1);
            let (defs, p1) = match parse_params_def(tokens, p1) {
                Some(x) => x,
                None => {
                    return None;
                },
            };
            let braced = p1 < tokens.len() && (match &tokens[p1] {
                Token::LBracket => true,
                _ => false,
            });
            if !braced {
                return None;
            }
            let (items, p) = match parse_record_items(tokens, p1 + 1) {
                Some(x) => x,
                None => {
                    return None;
                },
            };
            if p < tokens.len() && (match &tokens[p] {
                Token::RBracket => true,
                _ => false,
            }) {
                Some((Scope::Model(ModelDefinition::Fragment(id, items, defs)), p + 1))
            } else {
                None
            }
        },
        Token::KeywordScalar => {
            if !(tokens.len() - pos > 2) {
                return None;
            }
            let name = match &tokens[pos + 1] {
                Token::Identifier(n) => n.clone(),
                _ => {
                    return None;
                },
            };
            let closed = match &tokens[pos + 2] {
                Token::Semicolon => true,
                _ => false,
            };
            if !closed {
                return None;
            }
            Some((Scope::Model(ModelDefinition::Scalar(Id::Name(name))), pos + 3))
        },
        _ => None,
    }
}

/// An optional construct name.
fn parse_opt_name(tokens: &Vec<Token>, pos: usize) -> (r: (Id, usize))
    requires
        pos <= tokens@.len() + 1,
    ensures
        pos as int <= tokens@.len() + 1 ==> ({
            let (idv, p) = name_at(tokens_view(tokens@), pos as int);
            r.0@ == idv && r.1 as int == p && pos <= r.1 && crate::transform::wf_id(r.0@)
        }),
{
    proof {
        crate::lexer::lemma_tokens_view_all(tokens@);
    }
    if pos < tokens.len() {
        match &tokens[pos] {
            Token::Identifier(n) => (Id::Name(n.clone()), pos + 1),
            _ => (Id::Inline, pos),
        }
    } else {
        (Id::Inline, pos)
    }
}

/// One declaration with local recovery: where none parses, an error leaf
/// takes its place and parsing resumes at the next synchronization token.
#[verifier::loop_isolation(false)]
fn parse_declaration(tokens: &Vec<Token>, pos: usize) -> (r: (Scope, usize))
    requires
        pos < tokens@.len(),
    ensures
        recovered_decl_at(tokens_view(tokens@), pos as int) == (scope_view(r.0), r.1 as int),
        pos < r.1 <= tokens@.len(),
        crate::transform::wf_scope(scope_view(r.0)),
    decreases tokens@.len() - pos, 3int,
{
    let ghost tv = tokens_view(tokens@);
    proof {
        crate::lexer::lemma_tokens_view_all(tokens@);
    }
    let n = tokens.len();
    match try_declaration(tokens, pos) {
        Some(x) => x,
        None => {
            let mut description = "unexpected ".to_owned();
            let text = token_text_exec(&tokens[pos]);
            description.append(text.as_str());
            let mut j: usize = pos + 1;
            while j < n && !is_sync_token_exec(&tokens[j])
                invariant
                    pos + 1 <= j <= tokens@.len(),
                    skip_sync(tv, pos as int + 1) == skip_sync(tv, j as int),
                decreases tokens@.len() - j,
            {
                j = j + 1;
            }
            proof {
                lemma_skip_sync_bounds(tv, pos as int + 1);
            }
            (Scope::Error(RecoveredError { description }), j)
        },
    }
}

/// The declarations of one body, until the end of input or the closing brace
/// of the enclosing package.
#[verifier::loop_isolation(false)]
#[verifier::rlimit(100)]
fn parse_declarations(tokens: &Vec<Token>, pos: usize) -> (r: (Vec<Scope>, usize))
    requires
        pos <= tokens@.len(),
    ensures
        decl_list_at(tokens_view(tokens@), pos as int) == (scopes_view(r.0@), r.1 as int),
        pos <= r.1 <= tokens@.len(),
        crate::transform::wf_scopes(scopes_view(r.0@)),
    decreases tokens@.len() - pos, 4int,
{
    let ghost tv = tokens_view(tokens@);
    proof {
        crate::lexer::lemma_tokens_view_all(tokens@);
        assert(scopes_view(Seq::<Scope>::empty()) =~= Seq::<ScopeView>::empty());
    }
    if pos >= tokens.len() {
        return (Vec::new(), pos);
    }
    let closing = match &tokens[pos] {
        Token::RBracket => true,
        _ => false,
    };
    if closing {
        return (Vec::new(), pos);
    }
    let (d, p) = parse_declaration(tokens, pos);
    let ghost dv = scope_view(d);
    let (rest, pend) = parse_declarations(tokens, p);
    let mut out: Vec<Scope> = Vec::new();
    let ghost restv = rest@;
    out.push(d);
    let mut rest = rest;
    out.append(&mut rest);
    proof {
        assert(out@ =~= seq![out@[0]] + restv);
        crate::scope::lemma_scopes_view_concat(seq![out@[0]], restv);
        assert(scopes_view(seq![out@[0]]) =~= Seq::<ScopeView>::empty().push(dv)) by {
            assert(seq![out@[0]].drop_last() =~= Seq::<Scope>::empty());
        }
        assert(scopes_view(out@) =~= seq![dv] + scopes_view(restv));
    }
    (out, pend)
}

/// The whole top level: declaration lists separated by stray closing braces,
/// each stray brace becoming an error leaf of its own.
#[verifier::loop_isolation(false)]
#[verifier::rlimit(100)]
fn parse_top_level(tokens: &Vec<Token>, pos: usize) -> (r: Vec<Scope>)
    requires
        pos <= tokens@.len(),
    ensures
        top_level_at(tokens_view(tokens@), pos as int) == scopes_view(r@),
        crate::transform::wf_scopes(scopes_view(r@)),
    decreases tokens@.len() - pos, 5int,
{
    let ghost tv = tokens_view(tokens@);
    proof {
        crate::lexer::lemma_tokens_view_all(tokens@);
        lemma_top_level_at_wf(tv, pos as int);
    }
    let (ds, p) = parse_declarations(tokens, pos);
    if p >= tokens.len() {
        return ds;
    }
    let mut description = "unexpected ".to_owned();
    let text = token_text_exec(&tokens[p]);
    description.append(text.as_str());
    let err = Scope::Error(RecoveredError { description });
    let ghost ev = scope_view(err);
    let ghost dsv = ds@;
    let rest = parse_top_level(tokens, p + 1);
    let ghost restv = rest@;
    let mut out = ds;
    out.push(err);
    let mut rest = rest;
    out.append(&mut rest);
    proof {
        assert(out@ =~= (dsv.push(err)) + restv);
        crate::scope::lemma_scopes_view_concat(dsv.push(err), restv);
        crate::scope::lemma_scopes_view_push(dsv, err);
        assert(scopes_view(out@) =~= (scopes_view(dsv) + seq![ev]) + scopes_view(restv));
        assert(scopes_view(dsv).push(ev) =~= scopes_view(dsv) + seq![ev]);
    }
    out
}

/// Parses a whole source text into its scope tree: lexes it, parses the unit
/// with local error recovery, and mounts the result under the global scope.
/// The flag says whether the root-form `package NAME;` opened the unit,
/// which is what rendering needs to reproduce it positionally.
pub fn make_ast(code: &str) -> (r: (Scope, bool))
    ensures
        ({
            let (sv, root_form) = parsed(code@);
            scope_view(r.0) == sv && r.1 == root_form && crate::transform::wf_scope(
                scope_view(r.0),
            )
        }),
{
    let tokens = tokenize(code);
    let ghost tv = tokens_view(tokens@);
    proof {
        crate::lexer::lemma_tokens_view_all(tokens@);
    }
    let root_form = tokens.len() >= 3 && (match &tokens[0] {
        Token::KeywordPackage => true,
        _ => false,
    }) && (match &tokens[1] {
        Token::Identifier(_) => true,
        _ => false,
    }) && (match &tokens[2] {
        Token::Semicolon => true,
        _ => false,
    });
    if root_form {
        let name = match &tokens[1] {
            Token::Identifier(n) => n.clone(),
            _ => {
                proof {
                    assert(false);
                }
                String::new()
            },
        };
        let items = parse_top_level(&tokens, 3);
        let pkg = Scope::Package(Id::Name(name), items);
        let ghost pv = scope_view(pkg);
        let ghost pkgval = pkg;
        let mut children: Vec<Scope> = Vec::new();
        children.push(pkg);
        proof {
            crate::scope::lemma_scopes_view_push(Seq::<Scope>::empty(), pkgval);
            assert(scopes_view(Seq::<Scope>::empty()) =~= Seq::<ScopeView>::empty());
            assert(children@ =~= Seq::<Scope>::empty().push(pkgval));
            assert(scopes_view(children@) =~= seq![pv]);
            assert(crate::transform::wf_scope(pv));
            assert forall|i: int| 0 <= i < seq![pv].len() implies crate::transform::wf_scope(
                #[trigger] seq![pv][i],
            ) by {
                assert(seq![pv][i] == pv);
            }
        }
        (Scope::Global(children), true)
    } else {
        let items = parse_top_level(&tokens, 0);
        (Scope::Global(items), false)
    }
}

} // verus!
