//! The immediate render target: computes, for each consumed token, the exact
//! chunk of text an interactive display should write next. It tracks the
//! current indent depth and the previously consumed token; writing the
//! chunks is left to the caller, so consuming a token has no side effect.

use vstd::prelude::*;
use crate::transform::{TextToken, TextTokenView};
use crate::string_render::spaces;
use vstd::string::StringExecFns;

verus! {

/// The whole state of the immediate sink: blanks per indent level, current
/// indent depth, and the previously consumed token.
pub struct ConsoleState {
    pub indent_count: nat,
    pub indent: nat,
    pub last: TextTokenView,
}

/// The immediate sink's starting state.
pub open spec fn console_init(indent_count: nat) -> ConsoleState {
    ConsoleState { indent_count, indent: 0, last: TextTokenView::NoOp }
}

/// The effect of one token on the immediate sink's state; the indent moves
/// never leave the machine range, so consuming a token is total.
pub open spec fn console_step(st: ConsoleState, t: TextTokenView) -> ConsoleState {
    match t {
        TextTokenView::IncIndent => ConsoleState {
            indent: if st.indent < usize::MAX as nat {
                st.indent + 1
            } else {
                st.indent
            },
            last: t,
            ..st
        },
        TextTokenView::DecIndent => ConsoleState {
            indent: if st.indent > 0 {
                (st.indent - 1) as nat
            } else {
                0
            },
            last: t,
            ..st
        },
        _ => ConsoleState { last: t, ..st },
    }
}

/// The chunk of text one token makes the display write: one blank only after
/// text; a hard break followed by the prevailing indentation for `NewLine`
/// and `LineIndent`; and, for text directly after an indent change, the
/// current-level indentation re-rendered first, because an indent change may
/// be requested before it is known whether text follows on the new level.
pub open spec fn console_chunk(st: ConsoleState, t: TextTokenView) -> Seq<char> {
    match t {
        TextTokenView::NoOp => Seq::empty(),
        TextTokenView::Space => if st.last is Text {
            seq![' ']
        } else {
            Seq::empty()
        },
        TextTokenView::NewLine => seq!['\n'] + spaces(st.indent * st.indent_count),
        TextTokenView::LineIndent => seq!['\n'] + spaces(st.indent * st.indent_count),
        TextTokenView::IncIndent => Seq::empty(),
        TextTokenView::DecIndent => Seq::empty(),
        TextTokenView::Text(s) => (if st.last is IncIndent || st.last is DecIndent {
            seq!['\r'] + spaces(st.indent * st.indent_count)
        } else {
            Seq::empty()
        }) + s,
    }
}

/// The immediate sink.
pub struct ConsoleRender {
    indent_count: usize,
    indent: usize,
    last_token: TextToken,
}

impl View for ConsoleRender {
    type V = ConsoleState;

    closed spec fn view(&self) -> ConsoleState {
        ConsoleState {
            indent_count: self.indent_count as nat,
            indent: self.indent as nat,
            last: self.last_token@,
        }
    }
}

impl ConsoleRender {
    /// A fresh sink writing `indent_count` blanks per indent level.
    pub fn new(indent_count: usize) -> (r: ConsoleRender)
        ensures
            r@ == console_init(indent_count as nat),
    {
        ConsoleRender { indent_count, indent: 0, last_token: TextToken::NoOp }
    }

    /// Consumes one token and hands back exactly what the display writes for
    /// it. Total: every token is accepted in every state.
    pub fn push_token(&mut self, token: TextToken) -> (out: String)
        ensures
            final(self)@ == console_step(old(self)@, token@),
            out@ == console_chunk(old(self)@, token@),
    {
        let mut out = String::new();
        match &token {
            TextToken::NoOp => {},
            TextToken::Space => {
                match &self.last_token {
                    TextToken::Text(_) => {
                        out.append(" ");
                        proof {
                            reveal_strlit(" ");
                            assert(" "@ =~= seq![' ']);
                        }
                    },
                    _ => {},
                }
            },
            TextToken::NewLine | TextToken::LineIndent => {
                out.append("\n");
                proof {
                    reveal_strlit("\n");
                    assert("\n"@ =~= seq!['\n']);
                }
                crate::string_render::append_spaces(&mut out, self.indent, self.indent_count);
            },
            TextToken::IncIndent => {
                if self.indent < usize::MAX {
                    self.indent = self.indent + 1;
                }
            },
            TextToken::DecIndent => {
                if self.indent > 0 {
                    self.indent = self.indent - 1;
                }
            },
            TextToken::Text(text) => {
                match &self.last_token {
                    TextToken::IncIndent | TextToken::DecIndent => {
                        out.append("\r");
                        proof {
                            reveal_strlit("\r");
                            assert("\r"@ =~= seq!['\r']);
                        }
                        crate::string_render::append_spaces(
                            &mut out,
                            self.indent,
                            self.indent_count,
                        );
                    },
                    _ => {},
                }
                out.append(text.as_str());
            },
        }
        self.last_token = token;
        out
    }
}

} // verus!
