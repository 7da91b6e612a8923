//! A compilation unit's source: a file named by its path, or text held
//! directly. Reading a file is the caller's business; the library only
//! computes the unit's name from the path.

use vstd::prelude::*;
use vstd::string::{StrSliceExecFns, StringExecFns};

verus! {

/// Where a compilation unit's text comes from.
#[derive(Debug, PartialEq, Eq)]
pub enum Source {
    File(String),
    Text(String),
}

/// Mathematical view of [`Source`].
pub enum SourceView {
    File(Seq<char>),
    Text(Seq<char>),
}

impl View for Source {
    type V = SourceView;

    open spec fn view(&self) -> SourceView {
        match self {
            Source::File(p) => SourceView::File(p@),
            Source::Text(s) => SourceView::Text(s@),
        }
    }
}

/// The largest index at or below `pos` holding `c`, or `-1`.
pub open spec fn last_index_from(s: Seq<char>, c: char, pos: int) -> int
    decreases pos + 1,
{
    if pos < 0 || pos >= s.len() {
        -1
    } else if s[pos] == c {
        pos
    } else {
        last_index_from(s, c, pos - 1)
    }
}

pub proof fn lemma_last_index_from_bounds(s: Seq<char>, c: char, pos: int)
    requires
        -1 <= pos < s.len(),
    ensures
        -1 <= last_index_from(s, c, pos) <= pos,
    decreases pos + 1,
{
    if pos >= 0 && s[pos] != c {
        lemma_last_index_from_bounds(s, c, pos - 1);
    }
}

/// The name a file path gives its compilation unit: the part after the last
/// path separator, with the extension after the last interior dot removed.
pub open spec fn file_stem_of(p: Seq<char>) -> Seq<char> {
    let start = last_index_from(p, '/', p.len() - 1) + 1;
    let base = p.subrange(start, p.len() as int);
    let dot = last_index_from(base, '.', base.len() - 1);
    if dot >= 1 {
        base.subrange(0, dot)
    } else {
        base
    }
}

/// The name of a source: its file's stem, or empty for direct text.
pub open spec fn source_name(s: SourceView) -> Seq<char> {
    match s {
        SourceView::File(p) => file_stem_of(p),
        SourceView::Text(_) => Seq::empty(),
    }
}

/// The largest index of `c` in `s`, if `c` occurs at all.
fn rfind_char(s: &str, c: char) -> (r: Option<usize>)
    ensures
        match r {
            Some(i) => i < s@.len() && last_index_from(s@, c, s@.len() - 1) == i as int,
            None => last_index_from(s@, c, s@.len() - 1) == -1,
        },
{
    let n = s.unicode_len();
    let mut j: usize = n;
    while j > 0
        invariant
            j <= n,
            n == s@.len(),
            last_index_from(s@, c, n as int - 1) == last_index_from(s@, c, j as int - 1),
        decreases j,
    {
        if s.get_char(j - 1) == c {
            return Some(j - 1);
        }
        j = j - 1;
    }
    None
}

impl Source {
    /// A source named by a file path.
    pub fn from_file(path: &str) -> (r: Source)
        ensures
            r@ == SourceView::File(path@),
    {
        Source::File(path.to_owned())
    }

    /// A source holding its text directly.
    pub fn from_str(text: &str) -> (r: Source)
        ensures
            r@ == SourceView::Text(text@),
    {
        Source::Text(text.to_owned())
    }

    /// The compilation unit's name: the file path's stem, or empty for
    /// direct text.
    pub fn get_name(&self) -> (r: String)
        ensures
            r@ == source_name(self@),
    {
        match self {
            Source::Text(_) => String::new(),
            Source::File(p) => {
                let st = p.as_str();
                let n = st.unicode_len();
                let start = match rfind_char(st, '/') {
                    Some(i) => i + 1,
                    None => 0,
                };
                let base = st.substring_char(start, n);
                proof {
                    if n > 0 {
                        lemma_last_index_from_bounds(p@, '/', n as int - 1);
                    }
                }
                let stem = match rfind_char(base, '.') {
                    Some(d) => if d >= 1 {
                        base.substring_char(0, d)
                    } else {
                        base
                    },
                    None => base,
                };
                stem.to_owned()
            },
        }
    }
}

} // verus!
