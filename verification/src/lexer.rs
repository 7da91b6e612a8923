//! The lexer: turns source characters into tokens, skipping whitespace,
//! line breaks and line comments. A character that starts no token becomes
//! an inline error token, so lexical failures reach the parser as data and
//! are locally recovered there.

use vstd::prelude::*;
use vstd::string::{StrSliceExecFns, StringExecFns};

verus! {

/// A lexical failure: an unrecognized character, or a malformed numeric
/// literal (reserved; the lexer keeps digits as text and never parses them).
#[derive(Debug, PartialEq, Eq, Clone)]
pub enum LexicalError {
    InvalidToken,
    InvalidInteger,
}

/// One token of the language.
#[derive(Debug, PartialEq, Eq)]
pub enum Token {
    KeywordPackage,
    KeywordModel,
    KeywordEnum,
    KeywordFragment,
    KeywordScalar,
    Identifier(String),
    Number(String),
    LParen,
    RParen,
    LBracket,
    RBracket,
    Lees,
    Greater,
    LSquare,
    RSquare,
    Question,
    Assign,
    Semicolon,
    Colon,
    Comma,
    Spread,
    Error(LexicalError),
}

/// Mathematical view of [`Token`].
pub enum TokenView {
    KeywordPackage,
    KeywordModel,
    KeywordEnum,
    KeywordFragment,
    KeywordScalar,
    Identifier(Seq<char>),
    Number(Seq<char>),
    LParen,
    RParen,
    LBracket,
    RBracket,
    Lees,
    Greater,
    LSquare,
    RSquare,
    Question,
    Assign,
    Semicolon,
    Colon,
    Comma,
    Spread,
    Error(LexicalError),
}

impl View for Token {
    type V = TokenView;

    open spec fn view(&self) -> TokenView {
        match self {
            Token::KeywordPackage => TokenView::KeywordPackage,
            Token::KeywordModel => TokenView::KeywordModel,
            Token::KeywordEnum => TokenView::KeywordEnum,
            Token::KeywordFragment => TokenView::KeywordFragment,
            Token::KeywordScalar => TokenView::KeywordScalar,
            Token::Identifier(s) => TokenView::Identifier(s@),
            Token::Number(s) => TokenView::Number(s@),
            Token::LParen => TokenView::LParen,
            Token::RParen => TokenView::RParen,
            Token::LBracket => TokenView::LBracket,
            Token::RBracket => TokenView::RBracket,
            Token::Lees => TokenView::Lees,
            Token::Greater => TokenView::Greater,
            Token::LSquare => TokenView::LSquare,
            Token::RSquare => TokenView::RSquare,
            Token::Question => TokenView::Question,
            Token::Assign => TokenView::Assign,
            Token::Semicolon => TokenView::Semicolon,
            Token::Colon => TokenView::Colon,
            Token::Comma => TokenView::Comma,
            Token::Spread => TokenView::Spread,
            Token::Error(e) => TokenView::Error(*e),
        }
    }
}

pub open spec fn tokens_view(s: Seq<Token>) -> Seq<TokenView>
    decreases s,
{
    if s.len() == 0 {
        Seq::empty()
    } else {
        tokens_view(s.drop_last()).push(s.last()@)
    }
}

pub proof fn lemma_tokens_view_len(s: Seq<Token>)
    ensures
        tokens_view(s).len() == s.len(),
    decreases s,
{
    if s.len() > 0 {
        lemma_tokens_view_len(s.drop_last());
    }
}

/// Viewing a token sequence is pointwise.
pub proof fn lemma_tokens_view_index(s: Seq<Token>, i: int)
    requires
        0 <= i < s.len(),
    ensures
        tokens_view(s).len() == s.len(),
        tokens_view(s)[i] == s[i]@,
    decreases s,
{
    lemma_tokens_view_len(s);
    if i < s.len() - 1 {
        assert(s.drop_last()[i] == s[i]);
        lemma_tokens_view_index(s.drop_last(), i);
    } else {
        lemma_tokens_view_len(s.drop_last());
    }
}

/// The view of a token sequence is its length-preserving pointwise view.
pub proof fn lemma_tokens_view_all(s: Seq<Token>)
    ensures
        tokens_view(s).len() == s.len(),
        forall|i: int| 0 <= i < s.len() ==> tokens_view(s)[i] == s[i]@,
{
    lemma_tokens_view_len(s);
    assert forall|i: int| 0 <= i < s.len() implies tokens_view(s)[i] == s[i]@ by {
        lemma_tokens_view_index(s, i);
    }
}

pub proof fn lemma_tokens_view_push(s: Seq<Token>, x: Token)
    ensures
        tokens_view(s.push(x)) == tokens_view(s).push(x@),
{
    assert(s.push(x).drop_last() =~= s);
    assert(s.push(x).last() == x);
}

// ---------------------------------------------------------------------------
// Character classes and scans.
// ---------------------------------------------------------------------------

pub open spec fn is_ident_start(c: char) -> bool {
    c == '_' || ('a' <= c && c <= 'z') || ('A' <= c && c <= 'Z')
}

pub open spec fn is_ident_char(c: char) -> bool {
    is_ident_start(c) || ('0' <= c && c <= '9')
}

/// Blanks skipped between tokens: space, tab, form feed.
pub open spec fn is_blank(c: char) -> bool {
    c == ' ' || c == '\t' || c == '\u{c}'
}

/// The first position at or after `pos` whose character no longer continues
/// an identifier.
pub open spec fn ident_end(s: Seq<char>, pos: int) -> int
    decreases s.len() - pos,
{
    if 0 <= pos < s.len() && is_ident_char(s[pos]) {
        ident_end(s, pos + 1)
    } else {
        pos
    }
}

/// The first position at or after `pos` whose character is no digit.
pub open spec fn digits_end(s: Seq<char>, pos: int) -> int
    decreases s.len() - pos,
{
    if 0 <= pos < s.len() && ('0' <= s[pos] && s[pos] <= '9') {
        digits_end(s, pos + 1)
    } else {
        pos
    }
}

/// The position just past a line comment that starts before `pos`: past the
/// next line break, or the end of input.
pub open spec fn comment_end(s: Seq<char>, pos: int) -> int
    decreases s.len() - pos,
{
    if 0 <= pos < s.len() {
        if s[pos] == '\n' {
            pos + 1
        } else {
            comment_end(s, pos + 1)
        }
    } else {
        pos
    }
}

pub proof fn lemma_ident_end_bounds(s: Seq<char>, pos: int)
    requires
        0 <= pos <= s.len(),
    ensures
        pos <= ident_end(s, pos) <= s.len(),
    decreases s.len() - pos,
{
    if pos < s.len() && is_ident_char(s[pos]) {
        lemma_ident_end_bounds(s, pos + 1);
    }
}

pub proof fn lemma_digits_end_bounds(s: Seq<char>, pos: int)
    requires
        0 <= pos <= s.len(),
    ensures
        pos <= digits_end(s, pos) <= s.len(),
    decreases s.len() - pos,
{
    if pos < s.len() && ('0' <= s[pos] && s[pos] <= '9') {
        lemma_digits_end_bounds(s, pos + 1);
    }
}

pub proof fn lemma_comment_end_bounds(s: Seq<char>, pos: int)
    requires
        0 <= pos <= s.len(),
    ensures
        pos <= comment_end(s, pos) <= s.len(),
    decreases s.len() - pos,
{
    if pos < s.len() && s[pos] != '\n' {
        lemma_comment_end_bounds(s, pos + 1);
    }
}

/// An identifier-shaped word is a keyword token or an identifier token.
pub open spec fn classify_word(w: Seq<char>) -> TokenView {
    if w == "package"@ {
        TokenView::KeywordPackage
    } else if w == "model"@ {
        TokenView::KeywordModel
    } else if w == "enum"@ {
        TokenView::KeywordEnum
    } else if w == "fragment"@ {
        TokenView::KeywordFragment
    } else if w == "scalar"@ {
        TokenView::KeywordScalar
    } else {
        TokenView::Identifier(w)
    }
}

/// One step of the lexer at `pos`: what it emits (nothing for skipped
/// blanks, breaks and comments) and where the next step starts.
pub open spec fn lex_step(s: Seq<char>, pos: int) -> (Option<TokenView>, int) {
    let c = s[pos];
    if is_blank(c) || c == '\n' {
        (None, pos + 1)
    } else if c == '/' && pos + 1 < s.len() && s[pos + 1] == '/' {
        (None, comment_end(s, pos + 2))
    } else if is_ident_start(c) {
        let e = ident_end(s, pos + 1);
        (Some(classify_word(s.subrange(pos, e))), e)
    } else if '1' <= c && c <= '9' {
        let e = digits_end(s, pos + 1);
        (Some(TokenView::Number(s.subrange(pos, e))), e)
    } else if c == '(' {
        (Some(TokenView::LParen), pos + 1)
    } else if c == ')' {
        (Some(TokenView::RParen), pos + 1)
    } else if c == '{' {
        (Some(TokenView::LBracket), pos + 1)
    } else if c == '}' {
        (Some(TokenView::RBracket), pos + 1)
    } else if c == '<' {
        (Some(TokenView::Lees), pos + 1)
    } else if c == '>' {
        (Some(TokenView::Greater), pos + 1)
    } else if c == '[' {
        (Some(TokenView::LSquare), pos + 1)
    } else if c == ']' {
        (Some(TokenView::RSquare), pos + 1)
    } else if c == '?' {
        (Some(TokenView::Question), pos + 1)
    } else if c == '=' {
        (Some(TokenView::Assign), pos + 1)
    } else if c == ';' {
        (Some(TokenView::Semicolon), pos + 1)
    } else if c == ':' {
        (Some(TokenView::Colon), pos + 1)
    } else if c == ',' {
        (Some(TokenView::Comma), pos + 1)
    } else if c == '.' && pos + 2 < s.len() && s[pos + 1] == '.' && s[pos + 2] == '.' {
        (Some(TokenView::Spread), pos + 3)
    } else {
        (Some(TokenView::Error(LexicalError::InvalidToken)), pos + 1)
    }
}

/// The token sequence of the input from `pos` on: one `lex_step` at a time,
/// each consuming at least one character.
pub open spec fn lex_from(s: Seq<char>, pos: int) -> Seq<TokenView>
    decreases s.len() - pos,
{
    if !(0 <= pos < s.len()) {
        Seq::empty()
    } else {
        let (t, p) = lex_step(s, pos);
        let next = if pos < p <= s.len() {
            p
        } else {
            pos + 1
        };
        (match t {
            Some(tok) => seq![tok],
            None => Seq::empty(),
        }) + lex_from(s, next)
    }
}

/// The token sequence of a whole input.
pub open spec fn lexed(s: Seq<char>) -> Seq<TokenView> {
    lex_from(s, 0)
}

// ---------------------------------------------------------------------------
// The executable lexer.
// ---------------------------------------------------------------------------

/// Whether two string slices hold the same characters.
fn str_eq_str(a: &str, b: &str) -> (r: bool)
    ensures
        r == (a@ == b@),
{
    let na = a.unicode_len();
    let nb = b.unicode_len();
    if na != nb {
        return false;
    }
    let mut i: usize = 0;
    while i < na
        invariant
            i <= na,
            na == a@.len(),
            na == b@.len(),
            forall|j: int| 0 <= j < i ==> a@[j] == b@[j],
        decreases na - i,
    {
        if a.get_char(i) != b.get_char(i) {
            return false;
        }
        i = i + 1;
    }
    proof {
        assert(a@ =~= b@);
    }
    true
}

/// Turns an identifier-shaped word into its keyword token or an identifier
/// token carrying the word.
fn classify(word: String) -> (t: Token)
    ensures
        t@ == classify_word(word@),
{
    if str_eq_str(word.as_str(), "package") {
        Token::KeywordPackage
    } else if str_eq_str(word.as_str(), "model") {
        Token::KeywordModel
    } else if str_eq_str(word.as_str(), "enum") {
        Token::KeywordEnum
    } else if str_eq_str(word.as_str(), "fragment") {
        Token::KeywordFragment
    } else if str_eq_str(word.as_str(), "scalar") {
        Token::KeywordScalar
    } else {
        Token::Identifier(word)
    }
}

fn is_ident_start_exec(c: char) -> (r: bool)
    ensures
        r == is_ident_start(c),
{
    c == '_' || ('a' <= c && c <= 'z') || ('A' <= c && c <= 'Z')
}

fn is_ident_char_exec(c: char) -> (r: bool)
    ensures
        r == is_ident_char(c),
{
    is_ident_start_exec(c) || ('0' <= c && c <= '9')
}

fn is_digit_exec(c: char) -> (r: bool)
    ensures
        r == ('0' <= c && c <= '9'),
{
    '0' <= c && c <= '9'
}

/// Tokenizes a whole input. Lexical failures become inline error tokens, so
/// tokenizing never fails.
#[verifier::loop_isolation(false)]
#[verifier::rlimit(100)]
pub fn tokenize(input: &str) -> (tokens: Vec<Token>)
    ensures
        tokens_view(tokens@) == lexed(input@),
{
    let s = input;
    let n = s.unicode_len();
    let mut tokens: Vec<Token> = Vec::new();
    let mut i: usize = 0;
    while i < n
        invariant
            i <= n,
            n == s@.len(),
            tokens_view(tokens@) + lex_from(s@, i as int) =~= lexed(s@),
        decreases n - i,
    {
        let ghost prefix = tokens_view(tokens@);
        let c = s.get_char(i);
        if c == ' ' || c == '\t' || c == '\u{c}' || c == '\n' {
            proof {
                assert(Seq::<TokenView>::empty() + lex_from(s@, i as int + 1) =~= lex_from(
                    s@,
                    i as int + 1,
                ));
            }
            i = i + 1;
        } else if c == '/' && i + 1 < n && s.get_char(i + 1) == '/' {
            // line comment: skip to just past the next line break
            let mut j: usize = i + 2;
            while j < n && s.get_char(j) != '\n'
                invariant
                    i + 2 <= j <= n,
                    comment_end(s@, i as int + 2) == comment_end(s@, j as int),
                decreases n - j,
            {
                j = j + 1;
            }
            if j < n {
                j = j + 1;
            }
            proof {
                lemma_comment_end_bounds(s@, i as int + 2);
                assert(Seq::<TokenView>::empty() + lex_from(s@, j as int) =~= lex_from(
                    s@,
                    j as int,
                ));
            }
            i = j;
        } else if is_ident_start_exec(c) {
            let mut j: usize = i + 1;
            while j < n && is_ident_char_exec(s.get_char(j))
                invariant
                    i + 1 <= j <= n,
                    ident_end(s@, i as int + 1) == ident_end(s@, j as int),
                decreases n - j,
            {
                j = j + 1;
            }
            proof {
                lemma_ident_end_bounds(s@, i as int + 1);
            }
            let word = s.substring_char(i, j).to_owned();
            let tok = classify(word);
            let ghost tk = tok@;
            let ghost before = tokens@;
            let ghost tokval = tok;
            tokens.push(tok);
            proof {
                lemma_tokens_view_push(before, tokval);
                assert(prefix.push(tk) + lex_from(s@, j as int) =~= prefix + (seq![tk] + lex_from(
                    s@,
                    j as int,
                )));
            }
            i = j;
        } else if '1' <= c && c <= '9' {
            let mut j: usize = i + 1;
            while j < n && is_digit_exec(s.get_char(j))
                invariant
                    i + 1 <= j <= n,
                    digits_end(s@, i as int + 1) == digits_end(s@, j as int),
                decreases n - j,
            {
                j = j + 1;
            }
            proof {
                lemma_digits_end_bounds(s@, i as int + 1);
            }
            let word = s.substring_char(i, j).to_owned();
            let tok = Token::Number(word);
            let ghost tk = tok@;
            let ghost before = tokens@;
            let ghost tokval = tok;
            tokens.push(tok);
            proof {
                lemma_tokens_view_push(before, tokval);
                assert(prefix.push(tk) + lex_from(s@, j as int) =~= prefix + (seq![tk] + lex_from(
                    s@,
                    j as int,
                )));
            }
            i = j;
        } else {
            let (tok, next) = if c == '(' {
                (Token::LParen, i + 1)
            } else if c == ')' {
                (Token::RParen, i + 1)
            } else if c == '{' {
                (Token::LBracket, i + 1)
            } else if c == '}' {
                (Token::RBracket, i + 1)
            } else if c == '<' {
                (Token::Lees, i + 1)
            } else if c == '>' {
                (Token::Greater, i + 1)
            } else if c == '[' {
                (Token::LSquare, i + 1)
            } else if c == ']' {
                (Token::RSquare, i + 1)
            } else if c == '?' {
                (Token::Question, i + 1)
            } else if c == '=' {
                (Token::Assign, i + 1)
            } else if c == ';' {
                (Token::Semicolon, i + 1)
            } else if c == ':' {
                (Token::Colon, i + 1)
            } else if c == ',' {
                (Token::Comma, i + 1)
            } else if c == '.' && n - i > 2 && s.get_char(i + 1) == '.' && s.get_char(i + 2)
                == '.' {
                (Token::Spread, i + 3)
            } else {
                (Token::Error(LexicalError::InvalidToken), i + 1)
            };
            let ghost tk = tok@;
            let ghost before = tokens@;
            let ghost tokval = tok;
            tokens.push(tok);
            proof {
                lemma_tokens_view_push(before, tokval);
                assert(prefix.push(tk) + lex_from(s@, next as int) =~= prefix + (seq![tk]
                    + lex_from(s@, next as int)));
            }
            i = next;
        }
    }
    tokens
}

} // verus!
