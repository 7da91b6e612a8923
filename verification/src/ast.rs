//! Identity and literal nodes of the abstract syntax tree, together with the
//! mathematical views that the contracts of the rendering pipeline speak of.

use vstd::prelude::*;

verus! {

/// A reserved extension point of [`Id::Branch`]; no grammar path currently
/// produces it.
#[derive(Debug, PartialEq, Eq)]
pub enum Branch {
    Version(String),
}

/// Identity of a named construct. `Inline` marks an anonymous construct whose
/// effective name is supplied by its usage site. `Index` and `Branch` are
/// reserved extension variants that no grammar path produces or consumes.
#[derive(Debug, PartialEq, Eq)]
pub enum Id {
    Name(String),
    Index(i32),
    Branch(String, Branch),
    Inline,
}

/// A literal value, used only as a metadata-parameter default.
#[derive(Debug, PartialEq, Eq)]
pub enum Literal {
    Text(String),
    Number(String),
}

/// The failures the front end reports to its caller: an unreadable source,
/// or an unrecoverable parse failure. Locally recovered syntax failures
/// never appear here: they become error leaves inside the tree instead.
#[derive(Debug, PartialEq, Eq)]
pub enum Error {
    Io(String),
    Parsing(String),
}

/// Mathematical view of [`Error`].
pub enum ErrorView {
    Io(Seq<char>),
    Parsing(Seq<char>),
}

impl View for Error {
    type V = ErrorView;

    open spec fn view(&self) -> ErrorView {
        match self {
            Error::Io(s) => ErrorView::Io(s@),
            Error::Parsing(s) => ErrorView::Parsing(s@),
        }
    }
}

/// Mathematical view of [`Branch`].
pub enum BranchView {
    Version(Seq<char>),
}

/// Mathematical view of [`Id`].
pub enum IdView {
    Name(Seq<char>),
    Index(int),
    Branch(Seq<char>, BranchView),
    Inline,
}

/// Mathematical view of [`Literal`].
pub enum LiteralView {
    Text(Seq<char>),
    Number(Seq<char>),
}

impl View for Branch {
    type V = BranchView;

    open spec fn view(&self) -> BranchView {
        match self {
            Branch::Version(s) => BranchView::Version(s@),
        }
    }
}

impl View for Id {
    type V = IdView;

    open spec fn view(&self) -> IdView {
        match self {
            Id::Name(s) => IdView::Name(s@),
            Id::Index(i) => IdView::Index(*i as int),
            Id::Branch(s, b) => IdView::Branch(s@, b@),
            Id::Inline => IdView::Inline,
        }
    }
}

impl View for Literal {
    type V = LiteralView;

    open spec fn view(&self) -> LiteralView {
        match self {
            Literal::Text(s) => LiteralView::Text(s@),
            Literal::Number(s) => LiteralView::Number(s@),
        }
    }
}

impl Id {
    /// An absent optional name collapses to `Inline`.
    pub fn from_option(value: Option<Id>) -> (r: Id)
        ensures
            r@ == match value {
                Some(v) => v@,
                None => IdView::Inline,
            },
    {
        match value {
            Some(v) => v,
            None => Id::Inline,
        }
    }
}

} // verus!
