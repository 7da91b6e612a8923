//! The scope tree: the shared container structure holding the abstract syntax
//! tree. It is built in an append-only phase while parsing reduces
//! productions, and is read-only afterwards; traversal is strictly downward,
//! pre-order, in insertion order.

use vstd::prelude::*;
use crate::ast::{Id, IdView};
use crate::model::{model_def_view, ModelDefinition, ModelDefinitionView};

verus! {

/// Diagnostic information carried by an error leaf: a construct that failed
/// to parse but was locally recovered from.
#[derive(Debug, PartialEq, Eq)]
pub struct RecoveredError {
    pub description: String,
}

impl View for RecoveredError {
    type V = Seq<char>;

    open spec fn view(&self) -> Seq<char> {
        self.description@
    }
}

/// A node of the scope tree. `Global` is the implicit top-level container and
/// exists exactly once per compilation unit; `Package` and `Global` are the
/// only kinds that accept children. `Model` and `Error` leaves are fully
/// constructed at creation and never mutated again.
#[derive(Debug, PartialEq, Eq)]
pub enum Scope {
    Global(Vec<Scope>),
    Package(Id, Vec<Scope>),
    Model(ModelDefinition),
    Error(RecoveredError),
}

/// Mathematical view of [`Scope`].
pub enum ScopeView {
    Global(Seq<ScopeView>),
    Package(IdView, Seq<ScopeView>),
    Model(ModelDefinitionView),
    Error(Seq<char>),
}

pub open spec fn scope_view(s: Scope) -> ScopeView
    decreases s,
{
    match s {
        Scope::Global(items) => ScopeView::Global(scopes_view(items@)),
        Scope::Package(id, items) => ScopeView::Package(id@, scopes_view(items@)),
        Scope::Model(def) => ScopeView::Model(model_def_view(def)),
        Scope::Error(e) => ScopeView::Error(e@),
    }
}

pub open spec fn scopes_view(s: Seq<Scope>) -> Seq<ScopeView>
    decreases s,
{
    if s.len() == 0 {
        Seq::empty()
    } else {
        scopes_view(s.drop_last()).push(scope_view(s.last()))
    }
}

impl View for Scope {
    type V = ScopeView;

    open spec fn view(&self) -> ScopeView {
        scope_view(*self)
    }
}

/// Appending the next element to a sequence of scopes extends its view by the
/// element's view.
pub proof fn lemma_scopes_view_push(s: Seq<Scope>, x: Scope)
    ensures
        scopes_view(s.push(x)) == scopes_view(s).push(scope_view(x)),
{
    assert(s.push(x).drop_last() =~= s);
    assert(s.push(x).last() == x);
}

/// Viewing a sequence of scopes is pointwise.
pub proof fn lemma_scopes_view_len(s: Seq<Scope>)
    ensures
        scopes_view(s).len() == s.len(),
    decreases s,
{
    if s.len() > 0 {
        lemma_scopes_view_len(s.drop_last());
    }
}

/// Viewing a sequence is pointwise.
pub proof fn lemma_scopes_view_index(s: Seq<Scope>, i: int)
    requires
        0 <= i < s.len(),
    ensures
        scopes_view(s).len() == s.len(),
        scopes_view(s)[i] == scope_view(s[i]),
    decreases s,
{
    lemma_scopes_view_len(s);
    if i < s.len() - 1 {
        assert(s.drop_last()[i] == s[i]);
        lemma_scopes_view_index(s.drop_last(), i);
    } else {
        lemma_scopes_view_len(s.drop_last());
    }
}

/// Viewing a concatenation of scopes splits pointwise.
pub proof fn lemma_scopes_view_concat(a: Seq<Scope>, b: Seq<Scope>)
    ensures
        scopes_view(a + b) == scopes_view(a) + scopes_view(b),
    decreases b,
{
    if b.len() == 0 {
        assert(a + b =~= a);
        assert(scopes_view(a) + scopes_view(b) =~= scopes_view(a));
    } else {
        assert((a + b).drop_last() =~= a + b.drop_last());
        assert((a + b).last() == b.last());
        lemma_scopes_view_concat(a, b.drop_last());
        assert(scopes_view(a) + scopes_view(b) =~= scopes_view(a) + scopes_view(b.drop_last()).push(
            scope_view(b.last()),
        ));
    }
}

impl Scope {
    /// A package node, created with the given children or empty.
    pub fn new_package(name: Id, items: Option<Vec<Scope>>) -> (r: Scope)
        ensures
            r@ == ScopeView::Package(name@, match items {
                Some(i) => scopes_view(i@),
                None => Seq::<ScopeView>::empty(),
            }),
    {
        match items {
            Some(i) => Scope::Package(name, i),
            None => Scope::Package(name, Vec::new()),
        }
    }

    /// A model leaf, fully constructed at creation.
    pub fn new_model(def: ModelDefinition) -> (r: Scope)
        ensures
            r@ == ScopeView::Model(def@),
    {
        Scope::Model(def)
    }

    /// Appends `item` to this node's child list if this node is a `Package`
    /// or `Global`; any other kind is a leaf, and the call is a deliberate
    /// no-op. Children keep insertion order, which rendering reproduces.
    pub fn add_space(&mut self, item: Scope)
        ensures
            match old(self)@ {
                ScopeView::Global(items) => final(self)@ == ScopeView::Global(
                    items.push(item@),
                ),
                ScopeView::Package(id, items) => final(self)@ == ScopeView::Package(
                    id,
                    items.push(item@),
                ),
                _ => final(self)@ == old(self)@,
            },
    {
        let ghost it = item;
        match self {
            Scope::Global(children) => {
                let ghost before = children@;
                children.push(item);
                proof {
                    lemma_scopes_view_push(before, it);
                }
            },
            Scope::Package(_, children) => {
                let ghost before = children@;
                children.push(item);
                proof {
                    lemma_scopes_view_push(before, it);
                }
            },
            _ => {},
        }
    }
}

} // verus!
