//! Front end of a compiler for a small schema-definition language: packages,
//! models (records, tuples, enums, fragments, aliases, scalars), and the
//! round-trip rendering pipeline that turns a parsed tree back into text.
//!
//! The crate root ties the pieces together — transformer, buffered sink,
//! finalization — and states the laws the pipeline obeys.

pub mod ast;
pub mod model;
pub mod scope;
pub mod transform;
pub mod string_render;
pub mod console_render;
pub mod lexer;
pub mod parser;
pub mod source;

use vstd::prelude::*;
use crate::scope::{Scope, ScopeView};
use crate::string_render::{
    final_lines, lemma_sink_run_push, render_text, sink_init, sink_run, RenderLineView, SinkState,
    StringRender,
};
use crate::transform::{
    error_tokens, lemma_scopes_tokens_concat, lemma_text_tokens_view_index,
    lemma_text_tokens_view_len, scope_tokens, scopes_tokens, text_tokens_view, wf_scope,
    MexLangTransformer, TextTokenView,
};

verus! {

/// The final line list of one tree: the transformer's token stream, consumed
/// by the buffered sink, finalized at `ic` blanks per indent level.
pub open spec fn rendered_lines(sv: ScopeView, is_root: bool, ic: nat) -> Seq<Seq<char>> {
    final_lines(sink_run(sink_init(), scope_tokens(sv, is_root)).lines, ic)
}

/// The rendered text of one tree.
pub open spec fn rendered(sv: ScopeView, is_root: bool, ic: nat) -> Seq<char> {
    render_text(sink_run(sink_init(), scope_tokens(sv, is_root)).lines, ic)
}

/// Renders a tree to one accumulated string: visits it in pre-order, feeds
/// the token sequence through the buffered sink, and finalizes. `is_root`
/// says whether `scope` stands at the outermost call, which decides whether
/// a package renders in its root form.
pub fn render_to_string(scope: &Scope, is_root: bool, indent_count: usize) -> (r: String)
    requires
        wf_scope(scope@),
    ensures
        r@ == rendered(scope@, is_root, indent_count as nat),
{
    let transformer = MexLangTransformer::new();
    let tokens = transformer.apply(scope, is_root);
    let ghost tv = text_tokens_view(tokens@);
    proof {
        lemma_text_tokens_view_len(tokens@);
        assert(tv == Seq::<TextTokenView>::empty() + scope_tokens(scope@, is_root));
        assert(tv =~= scope_tokens(scope@, is_root));
    }
    let mut sink = StringRender::new();
    let mut i: usize = 0;
    while i < tokens.len()
        invariant
            i <= tokens.len(),
            tv == text_tokens_view(tokens@),
            tv.len() == tokens@.len(),
            sink@ == sink_run(sink_init(), tv.take(i as int)),
        decreases tokens.len() - i,
    {
        proof {
            lemma_text_tokens_view_index(tokens@, i as int);
            assert(tv.take(i as int + 1).drop_last() =~= tv.take(i as int));
            assert(tv.take(i as int + 1).last() == tv[i as int]);
            lemma_sink_run_push(sink_init(), tv.take(i as int), tv[i as int]);
            assert(tv.take(i as int).push(tv[i as int]) =~= tv.take(i as int + 1));
        }
        let t = tokens[i].clone();
        sink.push_token(t);
        i = i + 1;
    }
    proof {
        assert(tv.take(tokens@.len() as int) =~= tv);
    }
    sink.as_string(indent_count)
}

// ---------------------------------------------------------------------------
// Laws of the pipeline.
// ---------------------------------------------------------------------------

/// Stability: the rendered text is a function of the tree alone, so two
/// renders of the same parsed tree yield identical output both times.
pub proof fn lemma_render_stable(
    sv: ScopeView,
    is_root: bool,
    ic: nat,
    a: Seq<char>,
    b: Seq<char>,
)
    requires
        a == rendered(sv, is_root, ic),
        b == rendered(sv, is_root, ic),
    ensures
        a == b,
{
}

/// Error containment, rendering half: an error leaf standing among valid
/// siblings does not disturb them — the emission of the whole sibling list
/// is the siblings' own emission, in original order, with exactly one
/// diagnostic line in between.
pub proof fn lemma_error_containment(
    pre: Seq<ScopeView>,
    description: Seq<char>,
    post: Seq<ScopeView>,
    is_root: bool,
)
    ensures
        scopes_tokens(pre + seq![ScopeView::Error(description)] + post, is_root) == scopes_tokens(
            pre,
            is_root,
        ) + error_tokens(description) + scopes_tokens(post, is_root),
{
    lemma_scopes_tokens_concat(pre + seq![ScopeView::Error(description)], post, is_root);
    lemma_scopes_tokens_concat(pre, seq![ScopeView::Error(description)], is_root);
    let single = seq![ScopeView::Error(description)];
    assert(single.drop_last() =~= Seq::<ScopeView>::empty());
    assert(single.last() == ScopeView::Error(description));
    reveal_with_fuel(scopes_tokens, 2);
    assert(scopes_tokens(single, is_root) =~= error_tokens(description));
    assert(scopes_tokens(pre + single, is_root) == scopes_tokens(pre, is_root) + error_tokens(
        description,
    ));
}

/// All content lines stored by the sink are non-empty, because an empty
/// flush stores no line.
pub proof fn lemma_sink_lines_nonempty(st: SinkState, toks: Seq<TextTokenView>)
    requires
        forall|j: int|
            0 <= j < st.lines.len() ==> (#[trigger] st.lines[j] matches RenderLineView::Content {
                text,
                ..
            } ==> text.len() > 0),
    ensures
        forall|j: int|
            0 <= j < sink_run(st, toks).lines.len() ==> (#[trigger] sink_run(
                st,
                toks,
            ).lines[j] matches RenderLineView::Content { text, .. } ==> text.len() > 0),
    decreases toks,
{
    if toks.len() > 0 {
        lemma_sink_lines_nonempty(st, toks.drop_last());
    }
}

/// No blank line stands where the finalized list starts, and no two blank
/// lines stand together, provided every stored content line is non-empty.
proof fn lemma_final_lines_no_adjacent_blanks(lines: Seq<RenderLineView>, ic: nat, n: int)
    requires
        0 <= n <= lines.len(),
        forall|j: int|
            0 <= j < lines.len() ==> (#[trigger] lines[j] matches RenderLineView::Content {
                text,
                ..
            } ==> text.len() > 0),
    ensures
        ({
            let fl = crate::string_render::final_lines_upto(lines, ic, n);
            &&& forall|k: int|
                0 <= k < fl.len() - 1 ==> !(#[trigger] fl[k].len() == 0 && fl[k + 1].len() == 0)
            &&& fl.len() > 0 ==> fl[0].len() != 0
            &&& (n > 0 && lines[n - 1] is Content) ==> (fl.len() > 0 && fl.last().len() != 0)
        }),
    decreases n,
{
    if n > 0 {
        lemma_final_lines_no_adjacent_blanks(lines, ic, n - 1);
        let prev = crate::string_render::final_lines_upto(lines, ic, n - 1);
        let fl = crate::string_render::final_lines_upto(lines, ic, n);
        match lines[n - 1] {
            RenderLineView::Content { text, indent } => {
                assert(fl =~= prev.push(crate::string_render::spaces(indent * ic) + text));
                assert(fl.last().len() >= text.len());
            },
            RenderLineView::Paragraph => {
                if n - 1 > 0 && crate::string_render::paragraph_breaks_after(lines[n - 2]) {
                    assert(lines[n - 2] is Content);
                    assert(fl =~= prev.push(Seq::<char>::empty()));
                    assert(prev.len() > 0 && prev.last().len() != 0);
                } else {
                    assert(fl =~= prev);
                }
            },
        }
    }
}

/// Blank-line canonicalization: the forced paragraph break before a header
/// never stacks with an existing blank line, so the rendered line list never
/// holds two blank lines together, nor starts with one, for any tree and any
/// indent width.
pub proof fn lemma_rendered_no_double_blank(sv: ScopeView, is_root: bool, ic: nat)
    ensures
        forall|k: int|
            0 <= k < rendered_lines(sv, is_root, ic).len() - 1 ==> !(#[trigger] rendered_lines(
                sv,
                is_root,
                ic,
            )[k].len() == 0 && rendered_lines(sv, is_root, ic)[k + 1].len() == 0),
        rendered_lines(sv, is_root, ic).len() > 0 ==> rendered_lines(sv, is_root, ic)[0].len()
            != 0,
{
    let st = sink_run(sink_init(), scope_tokens(sv, is_root));
    lemma_sink_lines_nonempty(sink_init(), scope_tokens(sv, is_root));
    lemma_final_lines_no_adjacent_blanks(st.lines, ic, st.lines.len() as int);
}

} // verus!
