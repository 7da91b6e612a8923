//! The buffered render target: consumes the format-token stream into
//! `(text, indent)` line records, and finalizes them into one string whose
//! whitespace reproduces the source exactly.
//!
//! `LineIndent` is recorded as a paragraph mark rather than a literal blank
//! line; finalization turns a mark into a blank line only where the
//! immediately preceding stored line is a top-level closing brace or a
//! root-style package statement, and drops it everywhere else.

use vstd::prelude::*;
use crate::transform::{Target, TextToken, TextTokenView};
use vstd::string::{StrSliceExecFns, StringExecFns};

verus! {

/// One stored record of the buffered sink: a flushed line of text with its
/// indent level, or the paragraph mark recorded for `LineIndent`.
#[derive(Debug, PartialEq, Eq)]
pub enum RenderLine {
    Content { text: String, indent: usize },
    Paragraph,
}

/// Mathematical view of [`RenderLine`].
pub enum RenderLineView {
    Content { text: Seq<char>, indent: nat },
    Paragraph,
}

impl View for RenderLine {
    type V = RenderLineView;

    open spec fn view(&self) -> RenderLineView {
        match self {
            RenderLine::Content { text, indent } => RenderLineView::Content {
                text: text@,
                indent: *indent as nat,
            },
            RenderLine::Paragraph => RenderLineView::Paragraph,
        }
    }
}

pub open spec fn render_lines_view(s: Seq<RenderLine>) -> Seq<RenderLineView>
    decreases s,
{
    if s.len() == 0 {
        Seq::empty()
    } else {
        render_lines_view(s.drop_last()).push(s.last()@)
    }
}

pub proof fn lemma_render_lines_view_push(s: Seq<RenderLine>, x: RenderLine)
    ensures
        render_lines_view(s.push(x)) == render_lines_view(s).push(x@),
{
    assert(s.push(x).drop_last() =~= s);
    assert(s.push(x).last() == x);
}

/// The whole state of the buffered sink: the stored line records, the line
/// being accumulated, the current indent level, and the previously consumed
/// token.
pub struct SinkState {
    pub lines: Seq<RenderLineView>,
    pub cur: Seq<char>,
    pub indent: nat,
    pub last: TextTokenView,
}

/// The sink's starting state.
pub open spec fn sink_init() -> SinkState {
    SinkState {
        lines: Seq::empty(),
        cur: Seq::empty(),
        indent: 0,
        last: TextTokenView::NoOp,
    }
}

/// The effect of one token on the sink: `Space` appends one blank only after
/// text; `NewLine` flushes the current line only when it is non-empty, so an
/// empty flush stores no line; `LineIndent` stores a paragraph mark; the
/// indent moves never leave the machine range, so consuming a token is total.
pub open spec fn sink_step(st: SinkState, t: TextTokenView) -> SinkState {
    match t {
        TextTokenView::NoOp => SinkState { last: t, ..st },
        TextTokenView::Space => if st.last is Text {
            SinkState { cur: st.cur + seq![' '], last: t, ..st }
        } else {
            SinkState { last: t, ..st }
        },
        TextTokenView::NewLine => if st.cur.len() > 0 {
            SinkState {
                lines: st.lines.push(
                    RenderLineView::Content { text: st.cur, indent: st.indent },
                ),
                cur: Seq::empty(),
                last: t,
                ..st
            }
        } else {
            SinkState { last: t, ..st }
        },
        TextTokenView::LineIndent => SinkState {
            lines: st.lines.push(RenderLineView::Paragraph),
            last: t,
            ..st
        },
        TextTokenView::IncIndent => SinkState {
            indent: if st.indent < usize::MAX as nat {
                st.indent + 1
            } else {
                st.indent
            },
            last: t,
            ..st
        },
        TextTokenView::DecIndent => SinkState {
            indent: if st.indent > 0 {
                (st.indent - 1) as nat
            } else {
                0
            },
            last: t,
            ..st
        },
        TextTokenView::Text(s) => SinkState { cur: st.cur + s, last: t, ..st },
    }
}

/// The sink's state after consuming a whole token sequence, left to right.
pub open spec fn sink_run(st: SinkState, toks: Seq<TextTokenView>) -> SinkState
    decreases toks,
{
    if toks.len() == 0 {
        st
    } else {
        sink_step(sink_run(st, toks.drop_last()), toks.last())
    }
}

pub proof fn lemma_sink_run_push(st: SinkState, toks: Seq<TextTokenView>, t: TextTokenView)
    ensures
        sink_run(st, toks.push(t)) == sink_step(sink_run(st, toks), t),
{
    assert(toks.push(t).drop_last() =~= toks);
    assert(toks.push(t).last() == t);
}

// ---------------------------------------------------------------------------
// Finalization.
// ---------------------------------------------------------------------------

/// `n` blanks.
pub open spec fn spaces(n: nat) -> Seq<char>
    decreases n,
{
    if n == 0 {
        Seq::empty()
    } else {
        spaces((n - 1) as nat).push(' ')
    }
}

/// The shape of a root-style package statement line: the word `package`, a
/// blank, and a closing `;`.
pub open spec fn is_package_statement_text(s: Seq<char>) -> bool {
    s.len() >= 9 && s[0] == 'p' && s[1] == 'a' && s[2] == 'c' && s[3] == 'k' && s[4] == 'a'
        && s[5] == 'g' && s[6] == 'e' && s[7] == ' ' && s[s.len() - 1] == ';'
}

/// Whether a paragraph mark directly after this stored line becomes a blank
/// line: only after a top-level closing brace or a root-style package
/// statement does the forced paragraph break stand for a blank line the
/// source really had.
pub open spec fn paragraph_breaks_after(l: RenderLineView) -> bool {
    match l {
        RenderLineView::Content { text, indent } => indent == 0 && (text == seq!['}']
            || is_package_statement_text(text)),
        RenderLineView::Paragraph => false,
    }
}

/// What record `i` contributes to the final line list: a content line with
/// its indentation applied, or, for a paragraph mark, one blank line exactly
/// when the preceding stored record allows it.
pub open spec fn line_out(lines: Seq<RenderLineView>, ic: nat, i: int) -> Seq<Seq<char>> {
    match lines[i] {
        RenderLineView::Content { text, indent } => seq![spaces(indent * ic) + text],
        RenderLineView::Paragraph => if i > 0 && paragraph_breaks_after(lines[i - 1]) {
            seq![Seq::<char>::empty()]
        } else {
            Seq::empty()
        },
    }
}

pub open spec fn final_lines_upto(lines: Seq<RenderLineView>, ic: nat, n: int) -> Seq<Seq<char>>
    decreases n,
{
    if n <= 0 {
        Seq::empty()
    } else {
        final_lines_upto(lines, ic, n - 1) + line_out(lines, ic, n - 1)
    }
}

pub proof fn lemma_final_lines_upto_len(lines: Seq<RenderLineView>, ic: nat, n: int)
    requires
        n >= 0,
    ensures
        final_lines_upto(lines, ic, n).len() <= n,
    decreases n,
{
    if n > 0 {
        lemma_final_lines_upto_len(lines, ic, n - 1);
    }
}

/// The final line list of a stored record list, at `ic` blanks per indent
/// level.
pub open spec fn final_lines(lines: Seq<RenderLineView>, ic: nat) -> Seq<Seq<char>> {
    final_lines_upto(lines, ic, lines.len() as int)
}

/// Lines joined with one line break between each pair.
pub open spec fn join_lines(ls: Seq<Seq<char>>) -> Seq<char>
    decreases ls,
{
    if ls.len() == 0 {
        Seq::empty()
    } else if ls.len() == 1 {
        ls[0]
    } else {
        join_lines(ls.drop_last()) + seq!['\n'] + ls.last()
    }
}

pub proof fn lemma_join_lines_push(ls: Seq<Seq<char>>, x: Seq<char>)
    ensures
        join_lines(ls.push(x)) == if ls.len() == 0 {
            x
        } else {
            join_lines(ls) + seq!['\n'] + x
        },
{
    assert(ls.push(x).drop_last() =~= ls);
    assert(ls.push(x).last() == x);
    if ls.len() == 0 {
        assert(join_lines(ls.push(x)) =~= x);
    }
}

/// The finalized text of a stored record list.
pub open spec fn render_text(lines: Seq<RenderLineView>, ic: nat) -> Seq<char> {
    join_lines(final_lines(lines, ic))
}

// ---------------------------------------------------------------------------
// The executable sink.
// ---------------------------------------------------------------------------

/// The buffered sink: accumulates line records instead of writing
/// immediately, for round-trip-exact string construction.
pub struct StringRender {
    data: Vec<RenderLine>,
    current_string: String,
    indent: usize,
    last_token: TextToken,
}

impl View for StringRender {
    type V = SinkState;

    closed spec fn view(&self) -> SinkState {
        SinkState {
            lines: render_lines_view(self.data@),
            cur: self.current_string@,
            indent: self.indent as nat,
            last: self.last_token@,
        }
    }
}

impl StringRender {
    /// An empty sink.
    pub fn new() -> (r: StringRender)
        ensures
            r@ == sink_init(),
    {
        let r = StringRender {
            data: Vec::new(),
            current_string: String::new(),
            indent: 0,
            last_token: TextToken::NoOp,
        };
        proof {
            assert(r@.lines =~= sink_init().lines);
            assert(r@.cur =~= sink_init().cur);
        }
        r
    }

    /// Consumes one token, updating the stored records, the current line, the
    /// indent level and the token memory. Total: every token is accepted in
    /// every state.
    pub fn push_token(&mut self, token: TextToken)
        ensures
            final(self)@ == sink_step(old(self)@, token@),
    {
        match &token {
            TextToken::NoOp => {},
            TextToken::Space => {
                match &self.last_token {
                    TextToken::Text(_) => {
                        self.current_string.append(" ");
                        proof {
                            reveal_strlit(" ");
                            assert(" "@ =~= seq![' ']);
                        }
                    },
                    _ => {},
                }
            },
            TextToken::NewLine => {
                if self.current_string.as_str().unicode_len() > 0 {
                    let text = self.current_string.clone();
                    let ghost before = self.data@;
                    let line = RenderLine::Content { text, indent: self.indent };
                    let ghost l = line;
                    self.data.push(line);
                    self.current_string = String::new();
                    proof {
                        lemma_render_lines_view_push(before, l);
                    }
                }
            },
            TextToken::LineIndent => {
                let ghost before = self.data@;
                self.data.push(RenderLine::Paragraph);
                proof {
                    lemma_render_lines_view_push(before, RenderLine::Paragraph);
                }
            },
            TextToken::IncIndent => {
                if self.indent < usize::MAX {
                    self.indent = self.indent + 1;
                }
            },
            TextToken::DecIndent => {
                if self.indent > 0 {
                    self.indent = self.indent - 1;
                }
            },
            TextToken::Text(text) => {
                self.current_string.append(text.as_str());
            },
        }
        self.last_token = token;
    }

    /// Joins the stored records into one string, applying `indent_count`
    /// blanks per indent level to each line and resolving every paragraph
    /// mark by the structural lookback rule.
    #[verifier::loop_isolation(false)]
    #[verifier::rlimit(50)]
    pub fn as_string(&self, indent_count: usize) -> (r: String)
        ensures
            r@ == render_text(self@.lines, indent_count as nat),
    {
        let ghost lv = self@.lines;
        proof {
            lemma_render_lines_view_len(self.data@);
        }
        let mut out = String::new();
        let mut emitted: usize = 0;
        let mut prev_breaks: bool = false;
        let mut i: usize = 0;
        while i < self.data.len()
            invariant
                i <= self.data.len(),
                out@ == join_lines(final_lines_upto(lv, indent_count as nat, i as int)),
                emitted == final_lines_upto(lv, indent_count as nat, i as int).len(),
                emitted <= i,
                i > 0 ==> prev_breaks == paragraph_breaks_after(lv[i as int - 1]),
            decreases self.data.len() - i,
        {
            proof {
                lemma_render_lines_view_index(self.data@, i as int);
            }
            let ghost done = final_lines_upto(lv, indent_count as nat, i as int);
            proof {
                lemma_final_lines_upto_len(lv, indent_count as nat, i as int + 1);
            }
            match &self.data[i] {
                RenderLine::Content { text, indent } => {
                    if emitted > 0 {
                        out.append("\n");
                        proof {
                            reveal_strlit("\n");
                            assert("\n"@ =~= seq!['\n']);
                        }
                    }
                    append_spaces(&mut out, *indent, indent_count);
                    out.append(text.as_str());
                    emitted = emitted + 1;
                    proof {
                        lemma_join_lines_push(
                            done,
                            spaces((*indent as nat) * (indent_count as nat)) + text@,
                        );
                        assert(final_lines_upto(lv, indent_count as nat, i as int + 1) =~= done.push(
                            spaces((*indent as nat) * (indent_count as nat)) + text@,
                        ));
                    }
                    prev_breaks = text_is_closing_brace(text) || text_is_package_statement(text);
                    if *indent != 0 {
                        prev_breaks = false;
                    }
                },
                RenderLine::Paragraph => {
                    let here_breaks = i > 0 && prev_breaks;
                    if here_breaks {
                        if emitted > 0 {
                            out.append("\n");
                            proof {
                                reveal_strlit("\n");
                                assert("\n"@ =~= seq!['\n']);
                            }
                        }
                        emitted = emitted + 1;
                        proof {
                            lemma_join_lines_push(done, Seq::<char>::empty());
                            assert(final_lines_upto(lv, indent_count as nat, i as int + 1)
                                =~= done.push(Seq::<char>::empty()));
                        }
                    } else {
                        proof {
                            assert(final_lines_upto(lv, indent_count as nat, i as int + 1)
                                =~= done);
                        }
                    }
                    prev_breaks = false;
                },
            }
            i = i + 1;
        }
        out
    }
}

impl Target<TextToken> for StringRender {
    fn render(&mut self, token: TextToken) {
        self.push_token(token);
    }
}

pub proof fn lemma_render_lines_view_len(s: Seq<RenderLine>)
    ensures
        render_lines_view(s).len() == s.len(),
    decreases s,
{
    if s.len() > 0 {
        lemma_render_lines_view_len(s.drop_last());
    }
}

/// Viewing a sequence of stored records is pointwise.
pub proof fn lemma_render_lines_view_index(s: Seq<RenderLine>, i: int)
    requires
        0 <= i < s.len(),
    ensures
        render_lines_view(s).len() == s.len(),
        render_lines_view(s)[i] == s[i]@,
    decreases s,
{
    lemma_render_lines_view_len(s);
    if i < s.len() - 1 {
        assert(s.drop_last()[i] == s[i]);
        lemma_render_lines_view_index(s.drop_last(), i);
    } else {
        lemma_render_lines_view_len(s.drop_last());
    }
}

/// Appends `levels * ic` blanks without ever multiplying at run time.
#[verifier::loop_isolation(false)]
pub(crate) fn append_spaces(out: &mut String, levels: usize, ic: usize)
    ensures
        final(out)@ == old(out)@ + spaces((levels as nat) * (ic as nat)),
{
    let mut j: usize = 0;
    while j < levels
        invariant
            j <= levels,
            out@ == old(out)@ + spaces((j as nat) * (ic as nat)),
        decreases levels - j,
    {
        let mut k: usize = 0;
        while k < ic
            invariant
                k <= ic,
                out@ == old(out)@ + spaces((j as nat) * (ic as nat) + k as nat),
            decreases ic - k,
        {
            out.append(" ");
            proof {
                reveal_strlit(" ");
                assert(" "@ =~= seq![' ']);
                assert(spaces((j as nat) * (ic as nat) + k as nat + 1) =~= spaces(
                    (j as nat) * (ic as nat) + k as nat,
                ) + seq![' ']);
            }
            k = k + 1;
        }
        proof {
            assert((j as nat + 1) * (ic as nat) == (j as nat) * (ic as nat) + (ic as nat))
                by (nonlinear_arith);
        }
        j = j + 1;
    }
    proof {
        assert(out@ =~= old(out)@ + spaces((levels as nat) * (ic as nat)));
    }
}

/// Whether this stored line is exactly one closing brace.
fn text_is_closing_brace(s: &String) -> (r: bool)
    ensures
        r == (s@ == seq!['}']),
{
    let st = s.as_str();
    let r = st.unicode_len() == 1 && st.get_char(0) == '}';
    proof {
        if r {
            assert(s@ =~= seq!['}']);
        }
    }
    r
}

/// Whether this stored line has the shape of a root-style package statement.
fn text_is_package_statement(s: &String) -> (r: bool)
    ensures
        r == is_package_statement_text(s@),
{
    let st = s.as_str();
    let n = st.unicode_len();
    if n < 9 {
        return false;
    }
    let r = st.get_char(0) == 'p' && st.get_char(1) == 'a' && st.get_char(2) == 'c' && st.get_char(
        3,
    ) == 'k' && st.get_char(4) == 'a' && st.get_char(5) == 'g' && st.get_char(6) == 'e'
        && st.get_char(7) == ' ' && st.get_char(n - 1) == ';';
    r
}

} // verus!
