//! Kebab-cased identifiers like `data-index` or `--css-var`.

use vstd::prelude::*;

use crate::lit::{literal_kind, syn_lit_kind, LitKind};
use crate::parse::{extends, lemma_input_len, lemma_reports_push, report, reports, Diagnostic, Input, ParseError, Report};
use crate::span::{color_all, colored_item, colored_items, join, spec_join, Span};
use crate::text::{copy_chars, string_from_chars};
use crate::token::{lemma_stream_view, lemma_stream_view_push, push_tree, stream_view, tree_view, Delimiter, Spacing, Tok, TokenTree};
use crate::ast::value::Value;

verus! {

broadcast use lemma_stream_view, lemma_input_len, lemma_reports_push, vstd::std_specs::vec::group_vec_axioms;

/// A token that may follow a `-` inside a kebab ident: an identifier or an
/// integer literal, whose text is a word.
pub open spec fn is_segment(t: TokenTree) -> bool {
    (t is Ident || (t is Literal && syn_lit_kind(t.text()) == LitKind::Int)) && is_word(t.text())
}

/// Whether a token's text is a word: not empty, and without white space.
/// The tokens of a lexer are.
pub open spec fn is_word(t: Seq<char>) -> bool {
    t.len() > 0 && has_no_whitespace(t)
}

/// Where an optional segment at `p` ends.
pub open spec fn segment_end(s: Seq<TokenTree>, p: int) -> int {
    if 0 <= p < s.len() && is_segment(s[p]) {
        p + 1
    } else {
        p
    }
}

/// Where a run of `-` segment pairs that starts at `p` ends.
pub open spec fn tail_end(s: Seq<TokenTree>, p: int) -> int
    decreases s.len() - p,
{
    if 0 <= p < s.len() && s[p].is_punct('-') {
        tail_end(s, segment_end(s, p + 1))
    } else {
        p
    }
}

/// Where the kebab ident that starts at `p` ends, if one starts there.
///
/// A kebab ident starts with an identifier (whose text is a word) or a `-`.
/// A `-` at the start may be followed directly by a segment. After that come any number of `-`,
/// each followed by an optional segment.
pub open spec fn kebab_end(s: Seq<TokenTree>, p: int) -> Option<int> {
    if 0 <= p < s.len() && s[p] is Ident && is_word(s[p].text()) {
        Some(tail_end(s, p + 1))
    } else if 0 <= p < s.len() && s[p].is_punct('-') {
        Some(tail_end(s, segment_end(s, p + 1)))
    } else {
        None
    }
}

/// The texts of the tokens, one after the other, with no space between.
pub open spec fn concat_text(s: Seq<TokenTree>) -> Seq<char>
    decreases s.len(),
{
    if s.len() == 0 {
        Seq::empty()
    } else {
        concat_text(s.drop_last()) + s.last().text()
    }
}

/// The spans of the tokens that are not a `-`.
pub open spec fn segment_spans(s: Seq<TokenTree>) -> Seq<Span>
    decreases s.len(),
{
    if s.len() == 0 {
        Seq::empty()
    } else if s.last().is_punct('-') {
        segment_spans(s.drop_last())
    } else {
        segment_spans(s.drop_last()).push(s.last().spec_span())
    }
}

/// The spans that a kebab ident over `s[p..q]` records: its first token's,
/// then that of every token after that is not a `-`.
pub open spec fn kebab_spans(s: Seq<TokenTree>, p: int, q: int) -> Seq<Span> {
    seq![s[p].spec_span()] + segment_spans(s.subrange(p + 1, q))
}

proof fn lemma_tail_end_bounds(s: Seq<TokenTree>, p: int)
    requires
        0 <= p <= s.len(),
    ensures
        p <= tail_end(s, p) <= s.len(),
    decreases s.len() - p,
{
    if 0 <= p < s.len() && s[p].is_punct('-') {
        lemma_tail_end_bounds(s, segment_end(s, p + 1));
    }
}

/// A kebab ident covers at least one token, and no more than there are.
pub proof fn lemma_kebab_end_bounds(s: Seq<TokenTree>, p: int)
    ensures
        kebab_end(s, p) matches Some(q) ==> p < q <= s.len(),
{
    if 0 <= p < s.len() && s[p] is Ident {
        lemma_tail_end_bounds(s, p + 1);
    } else if 0 <= p < s.len() && s[p].is_punct('-') {
        lemma_tail_end_bounds(s, segment_end(s, p + 1));
    }
}

proof fn lemma_extend(s: Seq<TokenTree>, p: int, q: int)
    requires
        0 <= p < q < s.len(),
    ensures
        concat_text(s.subrange(p, q + 1)) == concat_text(s.subrange(p, q)) + s[q].text(),
        segment_spans(s.subrange(p + 1, q + 1)) == if s[q].is_punct('-') {
            segment_spans(s.subrange(p + 1, q))
        } else {
            segment_spans(s.subrange(p + 1, q)).push(s[q].spec_span())
        },
{
    assert(s.subrange(p, q + 1).drop_last() =~= s.subrange(p, q));
    assert(s.subrange(p + 1, q + 1).drop_last() =~= s.subrange(p + 1, q));
}

/// Whether `c` is white space: a character of Unicode's `White_Space`
/// property, as `char::is_whitespace` tells.
pub open spec fn is_whitespace(c: char) -> bool {
    ||| c == '\t' || c == '\n' || c == '\x0b' || c == '\x0c' || c == '\r' || c == ' '
    ||| c == '\u{85}' || c == '\u{a0}' || c == '\u{1680}'
    ||| ('\u{2000}' <= c && c <= '\u{200a}')
    ||| c == '\u{2028}' || c == '\u{2029}' || c == '\u{202f}' || c == '\u{205f}' || c == '\u{3000}'
}

/// Whether a text holds no white space.
pub open spec fn has_no_whitespace(t: Seq<char>) -> bool {
    forall|i: int| 0 <= i < t.len() ==> !is_whitespace(#[trigger] t[i])
}

/// The tokens of a run of `-` segments that starts at `p` are each a `-`
/// or a segment.
proof fn lemma_tail_tokens(s: Seq<TokenTree>, p: int)
    requires
        0 <= p <= s.len(),
    ensures
        forall|i: int| p <= i < tail_end(s, p) ==> (#[trigger] s[i]).is_punct('-') || is_segment(s[i]),
    decreases s.len() - p,
{
    if 0 <= p < s.len() && s[p].is_punct('-') {
        lemma_tail_end_bounds(s, segment_end(s, p + 1));
        lemma_tail_tokens(s, segment_end(s, p + 1));
    }
}

/// The text of tokens that each hold no white space holds none.
proof fn lemma_concat_no_whitespace(s: Seq<TokenTree>)
    requires
        forall|i: int| 0 <= i < s.len() ==> has_no_whitespace((#[trigger] s[i]).text()),
    ensures
        has_no_whitespace(concat_text(s)),
    decreases s.len(),
{
    if s.len() > 0 {
        let p = s.drop_last();
        assert forall|i: int| 0 <= i < p.len() implies has_no_whitespace((#[trigger] p[i]).text()) by {
            assert(p[i] == s[i]);
        }
        lemma_concat_no_whitespace(p);
        let a = concat_text(p);
        let b = s.last().text();
        assert(has_no_whitespace(b)) by {
            assert(s.last() == s[s.len() - 1]);
        }
        assert forall|i: int| 0 <= i < (a + b).len() implies !is_whitespace(#[trigger] (a + b)[i]) by {
            if i < a.len() {
                assert((a + b)[i] == a[i]);
            } else {
                assert((a + b)[i] == b[i - a.len()]);
            }
        }
    }
}

/// The text of tokens starts with the text of the first of them.
proof fn lemma_concat_len(s: Seq<TokenTree>)
    requires
        s.len() > 0,
    ensures
        concat_text(s).len() >= s[0].text().len(),
    decreases s.len(),
{
    if s.len() > 1 {
        lemma_concat_len(s.drop_last());
        assert(s.drop_last()[0] == s[0]);
    }
}

/// A kebab ident is a word: its repr is not empty and holds no white space.
pub proof fn law_kebab_repr_is_a_word(s: Seq<TokenTree>, p: int)
    requires
        kebab_end(s, p) is Some,
    ensures
        is_word(concat_text(s.subrange(p, kebab_end(s, p)->0))),
{
    let q = kebab_end(s, p)->0;
    lemma_kebab_end_bounds(s, p);
    let t = s.subrange(p, q);
    if s[p] is Ident {
        lemma_tail_end_bounds(s, p + 1);
        lemma_tail_tokens(s, p + 1);
    } else {
        lemma_tail_end_bounds(s, segment_end(s, p + 1));
        lemma_tail_tokens(s, segment_end(s, p + 1));
    }
    assert forall|i: int| 0 <= i < t.len() implies has_no_whitespace((#[trigger] t[i]).text()) by {
        assert(t[i] == s[p + i]);
        if s[p + i].is_punct('-') {
            assert(s[p + i].text() =~= seq!['-']);
            assert(!is_whitespace('-'));
        } else if i > 0 {
            assert(is_segment(s[p + i]));
        }
    }
    lemma_concat_no_whitespace(t);
    lemma_concat_len(t);
    assert(t[0] == s[p]);
    if s[p].is_punct('-') {
        assert(s[p].text() =~= seq!['-']);
    }
}

/// A kebab-cased identifier.
///
/// The identifier must start with a letter, underscore or dash. The rest of
/// it may hold numbers as well; Rust keywords are allowed. Spaces between the
/// segments are ignored, as the tokens carry none.
///
/// Equality is based on the repr alone, not on the spans.
///
/// The spans are never empty, and the repr is a word: not empty, and
/// without white space.
#[derive(Debug)]
pub struct KebabIdent {
    repr: Vec<char>,
    spans: Vec<Span>,
}

impl KebabIdent {
    #[verifier::type_invariant]
    spec fn inv(self) -> bool {
        &&& self.spans@.len() > 0
        &&& is_word(self.repr@)
    }

    pub closed spec fn repr_view(self) -> Seq<char> {
        self.repr@
    }

    pub closed spec fn spans_view(self) -> Seq<Span> {
        self.spans@
    }

    pub open spec fn spec_span(self) -> Span {
        spec_join(self.spans_view()[0], self.spans_view().last())
    }

    /// A kebab ident of one identifier token, whose text is a word as that
    /// of every identifier is.
    pub fn from_ident(text: &Vec<char>, span: Span) -> (k: KebabIdent)
        requires
            is_word(text@),
        ensures
            k.repr_view() == text@,
            k.spans_view() == seq![span],
    {
        let mut spans: Vec<Span> = Vec::new();
        spans.push(span);
        KebabIdent { repr: copy_chars(text), spans }
    }

    /// The repr of this ident, a word.
    pub fn repr_chars(&self) -> (r: &Vec<char>)
        ensures
            r@ == self.repr_view(),
            is_word(r@),
    {
        proof {
            use_type_invariant(self);
        }
        &self.repr
    }

    /// The repr of this ident as a `String`: not empty, and without white
    /// space.
    pub fn repr(&self) -> (r: String)
        ensures
            r@ == self.repr_view(),
            is_word(r@),
    {
        proof {
            use_type_invariant(self);
        }
        string_from_chars(&self.repr)
    }

    /// Every span of this ident, one for each segment; there is at least
    /// one.
    pub fn spans(&self) -> (r: &Vec<Span>)
        ensures
            r@ == self.spans_view(),
            r@.len() > 0,
    {
        proof {
            use_type_invariant(self);
        }
        &self.spans
    }

    /// The span of the first and the last segment, joined.
    pub fn span(&self) -> (s: Span)
        ensures
            s == self.spec_span(),
    {
        proof {
            use_type_invariant(self);
        }
        join(self.spans[0], self.spans[self.spans.len() - 1])
    }

    /// A copy of this ident.
    pub fn clone_ident(&self) -> (k: KebabIdent)
        ensures
            k.repr_view() == self.repr_view(),
            k.spans_view() == self.spans_view(),
    {
        proof {
            use_type_invariant(self);
        }
        KebabIdent { repr: copy_chars(&self.repr), spans: self.spans.clone() }
    }

    /// Equality of kebab idents: the reprs are the same.
    pub fn eq(&self, other: &KebabIdent) -> (r: bool)
        ensures
            r == (self.repr_view() == other.repr_view()),
    {
        let a = &self.repr;
        let b = &other.repr;
        if a.len() != b.len() {
            assert(a@.len() != b@.len());
            return false;
        }
        let mut i: usize = 0;
        while i < a.len()
            invariant
                a@ == self.repr_view(),
                b@ == other.repr_view(),
                a@.len() == b@.len(),
                i <= a.len(),
                forall|j: int| 0 <= j < i ==> a@[j] == b@[j],
            decreases a.len() - i,
        {
            if a[i] != b[i] {
                assert(a@[i as int] != b@[i as int]);
                return false;
            }
            i = i + 1;
        }
        assert(a@ =~= b@);
        true
    }

    /// This ident as an identifier token: every `-` becomes `_`.
    pub fn to_snake_ident(&self) -> (t: TokenTree)
        ensures
            tree_view(t) == Tok::Ident(snake_text(self.repr_view()), self.spec_span()),
    {
        let span = self.span();
        TokenTree::Ident { text: snake_chars(&self.repr), span }
    }

    /// This ident as a string literal token, spanned to the ident.
    pub fn to_lit_str(&self) -> (t: TokenTree)
        ensures
            tree_view(t) == Tok::Literal(quoted(self.repr_view()), self.spec_span()),
    {
        let span = self.span();
        TokenTree::Literal { text: quote_chars(&self.repr), span }
    }

    /// This ident as a string literal, with a `let _ = ();` for each segment
    /// so that each segment is colored as a variable: `{let _ = (); .. "repr"}`.
    pub fn to_str_colored(&self) -> (t: TokenTree)
        ensures
            tree_view(t) == str_colored(*self),
    {
        let mut stream = color_all(&self.spans);
        let ghost before = stream@;
        let lit = TokenTree::Literal { text: quote_chars(&self.repr), span: Span::CallSite };
        stream.push(lit);
        proof {
            lemma_stream_view_push(before, lit);
            assert(stream_view(stream@) =~= colored_items(self.spans@) + seq![
                Tok::Literal(quoted(self.repr@), Span::CallSite),
            ]);
        }
        TokenTree::Group { delim: Delimiter::Brace, stream, span: Span::CallSite, close: Span::CallSite }
    }
}

/// `{let _ = (); .. "repr"}`: the ident as a string, each segment colored
/// as a variable.
pub open spec fn str_colored(k: KebabIdent) -> Tok {
    Tok::Group(
        Delimiter::Brace,
        colored_items(k.spans_view()) + seq![Tok::Literal(quoted(k.repr_view()), Span::CallSite)],
        Span::CallSite,
        Span::CallSite,
    )
}

/// The text with every `-` replaced by `_`.
pub open spec fn snake_text(s: Seq<char>) -> Seq<char> {
    s.map_values(|c: char| if c == '-' { '_' } else { c })
}

/// The text in double quotes: the source form of a string literal.
pub open spec fn quoted(s: Seq<char>) -> Seq<char> {
    seq!['"'] + s + seq!['"']
}

pub fn snake_chars(s: &Vec<char>) -> (r: Vec<char>)
    ensures
        r@ == snake_text(s@),
{
    let mut r: Vec<char> = Vec::new();
    let mut i: usize = 0;
    while i < s.len()
        invariant
            i <= s.len(),
            r@ == snake_text(s@.subrange(0, i as int)),
        decreases s.len() - i,
    {
        let c = s[i];
        r.push(if c == '-' { '_' } else { c });
        i = i + 1;
        assert(r@ =~= snake_text(s@.subrange(0, i as int)));
    }
    assert(s@.subrange(0, i as int) =~= s@);
    r
}

pub fn quote_chars(s: &Vec<char>) -> (r: Vec<char>)
    ensures
        r@ == quoted(s@),
{
    let mut r: Vec<char> = Vec::new();
    r.push('"');
    let mut i: usize = 0;
    while i < s.len()
        invariant
            i <= s.len(),
            r@ == seq!['"'] + s@.subrange(0, i as int),
        decreases s.len() - i,
    {
        r.push(s[i]);
        i = i + 1;
        assert(r@ =~= seq!['"'] + s@.subrange(0, i as int));
    }
    r.push('"');
    assert(r@ =~= quoted(s@));
    r
}

/// Whether the token is a segment: an identifier or an integer literal,
/// whose text is a word.
fn segment_at(inp: &Input, p: usize) -> (r: bool)
    ensures
        r == (p < inp.len() && is_segment(inp.s()[p as int])),
{
    if p < inp.toks.len() {
        match &inp.toks[p] {
            TokenTree::Ident { text, .. } => text_is_word(text),
            TokenTree::Literal { text, .. } => literal_kind(text) == LitKind::Int && text_is_word(text),
            _ => false,
        }
    } else {
        false
    }
}

/// Whether `c` is white space, as [`is_whitespace`] says.
fn char_is_whitespace(c: char) -> (r: bool)
    ensures
        r == is_whitespace(c),
{
    c == '\t' || c == '\n' || c == '\x0b' || c == '\x0c' || c == '\r' || c == ' ' || c == '\u{85}' || c
        == '\u{a0}' || c == '\u{1680}' || ('\u{2000}' <= c && c <= '\u{200a}') || c == '\u{2028}' || c
        == '\u{2029}' || c == '\u{202f}' || c == '\u{205f}' || c == '\u{3000}'
}

/// Whether a text is a word: not empty, and without white space.
pub(crate) fn text_is_word(t: &Vec<char>) -> (r: bool)
    ensures
        r == is_word(t@),
{
    if t.len() == 0 {
        return false;
    }
    let mut i: usize = 0;
    while i < t.len()
        invariant
            i <= t@.len(),
            forall|j: int| 0 <= j < i ==> !is_whitespace(#[trigger] t@[j]),
        decreases t.len() - i,
    {
        if char_is_whitespace(t[i]) {
            return false;
        }
        i = i + 1;
    }
    true
}

/// Parses a kebab ident at `pos`.
///
/// If the token at `pos` is neither an identifier (whose text is a word) nor
/// a `-`, the parse fails and nothing is consumed. Otherwise the ident runs as far as `kebab_end`
/// says; its repr is the text of every token it covers.
pub fn parse_kebab_ident(inp: &Input, pos: usize) -> (r: Result<(KebabIdent, usize), ParseError>)
    ensures
        r is Ok <==> kebab_end(inp.s(), pos as int) is Some,
        r matches Ok((k, q)) ==> {
            &&& q as int == kebab_end(inp.s(), pos as int)->0
            &&& pos < q <= inp.len()
            &&& k.repr_view() == concat_text(inp.s().subrange(pos as int, q as int))
            &&& k.spans_view() == kebab_spans(inp.s(), pos as int, q as int)
        },
        r matches Err(e) ==> e matches ParseError::Fail(d) && d.span == inp.spec_span_at(pos as int)
            && d.message@ == "expected a kebab-cased ident"@ && d.help is None,
{
    let ghost s = inp.s();
    if pos >= inp.toks.len() {
        return Err(inp.error(pos, "expected a kebab-cased ident"));
    }
    let mut repr: Vec<char> = Vec::new();
    let mut spans: Vec<Span> = Vec::new();
    let mut p: usize;
    match &inp.toks[pos] {
        TokenTree::Ident { text, span } => {
            if !text_is_word(text) {
                return Err(inp.error(pos, "expected a kebab-cased ident"));
            }
            repr = copy_chars(text);
            spans.push(*span);
            p = pos + 1;
        },
        TokenTree::Punct { ch, span, .. } => {
            if *ch != '-' {
                return Err(inp.error(pos, "expected a kebab-cased ident"));
            }
            repr.push('-');
            spans.push(*span);
            p = pos + 1;
            proof {
                let one = s.subrange(pos as int, pos + 1);
                assert(one.drop_last() =~= Seq::<TokenTree>::empty());
                assert(one.last() == s[pos as int]);
                assert(concat_text(Seq::<TokenTree>::empty()) =~= Seq::<char>::empty());
                assert(concat_text(one) =~= seq!['-']);
                assert(repr@ =~= concat_text(s.subrange(pos as int, p as int)));
                assert(s.subrange(pos + 1, pos + 1) =~= Seq::<TokenTree>::empty());
            }
            if segment_at(inp, p) {
                proof {
                    lemma_extend(s, pos as int, p as int);
                }
                let t = &inp.toks[p];
                match t {
                    TokenTree::Ident { text, span } => {
                        let mut k: usize = 0;
                        let ghost before = repr@;
                        while k < text.len()
                            invariant
                                k <= text@.len(),
                                repr@ == before + text@.subrange(0, k as int),
                            decreases text.len() - k,
                        {
                            repr.push(text[k]);
                            k = k + 1;
                            assert(repr@ =~= before + text@.subrange(0, k as int));
                        }
                        assert(text@.subrange(0, k as int) =~= text@);
                        spans.push(*span);
                    },
                    TokenTree::Literal { text, span } => {
                        let mut k: usize = 0;
                        let ghost before = repr@;
                        while k < text.len()
                            invariant
                                k <= text@.len(),
                                repr@ == before + text@.subrange(0, k as int),
                            decreases text.len() - k,
                        {
                            repr.push(text[k]);
                            k = k + 1;
                            assert(repr@ =~= before + text@.subrange(0, k as int));
                        }
                        assert(text@.subrange(0, k as int) =~= text@);
                        spans.push(*span);
                    },
                    _ => {},
                }
                p = p + 1;
            }
        },
        _ => {
            return Err(inp.error(pos, "expected a kebab-cased ident"));
        },
    }
    proof {
        let one = s.subrange(pos as int, pos + 1);
        assert(one.drop_last() =~= Seq::<TokenTree>::empty());
        assert(one.last() == s[pos as int]);
        assert(concat_text(Seq::<TokenTree>::empty()) =~= Seq::<char>::empty());
        assert(s.subrange(pos + 1, pos + 1) =~= Seq::<TokenTree>::empty());
        assert(repr@ =~= concat_text(s.subrange(pos as int, p as int)));
        assert(spans@ =~= kebab_spans(s, pos as int, p as int));
        lemma_tail_end_bounds(s, p as int);
    }
    while inp.peek_punct(p, '-')
        invariant
            s == inp.s(),
            s.len() == inp.toks.len(),
            pos < p <= s.len(),
            tail_end(s, p as int) == kebab_end(s, pos as int)->0,
            kebab_end(s, pos as int) is Some,
            repr@ == concat_text(s.subrange(pos as int, p as int)),
            spans@ == kebab_spans(s, pos as int, p as int),
        decreases s.len() - p,
    {
        proof {
            lemma_extend(s, pos as int, p as int);
        }
        repr.push('-');
        p = p + 1;
        if segment_at(inp, p) {
            proof {
                lemma_extend(s, pos as int, p as int);
            }
            let t = &inp.toks[p];
            match t {
                TokenTree::Ident { text, span } => {
                    let mut k: usize = 0;
                    let ghost before = repr@;
                    while k < text.len()
                        invariant
                            k <= text@.len(),
                            repr@ == before + text@.subrange(0, k as int),
                        decreases text.len() - k,
                    {
                        repr.push(text[k]);
                        k = k + 1;
                        assert(repr@ =~= before + text@.subrange(0, k as int));
                    }
                    assert(text@.subrange(0, k as int) =~= text@);
                    spans.push(*span);
                },
                TokenTree::Literal { text, span } => {
                    let mut k: usize = 0;
                    let ghost before = repr@;
                    while k < text.len()
                        invariant
                            k <= text@.len(),
                            repr@ == before + text@.subrange(0, k as int),
                        decreases text.len() - k,
                    {
                        repr.push(text[k]);
                        k = k + 1;
                        assert(repr@ =~= before + text@.subrange(0, k as int));
                    }
                    assert(text@.subrange(0, k as int) =~= text@);
                    spans.push(*span);
                },
                _ => {},
            }
            p = p + 1;
        }
    }
    proof {
        law_kebab_repr_is_a_word(s, pos as int);
    }
    Ok((KebabIdent { repr, spans }, p))
}

} // verus!

verus! {

/// A kebab ident or a string literal.
#[derive(Debug)]
pub enum KebabIdentOrStr {
    KebabIdent(KebabIdent),
    Str(TokenTree),
}

/// A string literal token.
pub open spec fn is_str_lit(t: TokenTree) -> bool {
    t is Literal && syn_lit_kind(t.text()) == LitKind::Str
}

/// Whether the token at `p` is a string literal (`input.peek(syn::LitStr)`).
pub fn peek_lit_str(inp: &Input, p: usize) -> (r: bool)
    ensures
        r == (p < inp.len() && is_str_lit(inp.s()[p as int])),
{
    if p < inp.toks.len() {
        match &inp.toks[p] {
            TokenTree::Literal { text, .. } => literal_kind(text) == LitKind::Str,
            _ => false,
        }
    } else {
        false
    }
}

impl KebabIdentOrStr {
    /// Parses a string literal, or else a kebab ident.
    pub fn parse(inp: &Input, pos: usize) -> (r: Result<(KebabIdentOrStr, usize), ParseError>)
        ensures
            pos < inp.len() && is_str_lit(inp.s()[pos as int]) ==> match r {
                Ok((KebabIdentOrStr::Str(t), q)) => q == pos + 1 && tree_view(t) == tree_view(
                    inp.s()[pos as int],
                ) && t.spec_span() == inp.s()[pos as int].spec_span(),
                _ => false,
            },
            !(pos < inp.len() && is_str_lit(inp.s()[pos as int])) ==> {
                &&& r is Ok <==> kebab_end(inp.s(), pos as int) is Some
                &&& match r {
                    Ok((KebabIdentOrStr::KebabIdent(i), q)) => q as int == kebab_end(inp.s(), pos as int)->0
                        && i.repr_view() == concat_text(inp.s().subrange(pos as int, q as int)),
                    Ok(_) => false,
                    Err(_) => true,
                }
                &&& r matches Err(e) ==> e is Fail
            },
            r matches Ok((k, q)) ==> pos < q <= inp.len(),
            r matches Err(ParseError::Fail(d)) ==> d@ == report(inp.spec_span_at(pos as int), "expected a kebab-cased ident"@),
    {
        if peek_lit_str(inp, pos) {
            return Ok((KebabIdentOrStr::Str(inp.toks[pos].deep_clone()), pos + 1));
        }
        match parse_kebab_ident(inp, pos) {
            Ok((k, q)) => Ok((KebabIdentOrStr::KebabIdent(k), q)),
            Err(e) => Err(e),
        }
    }

    pub open spec fn spec_span(self) -> Span {
        match self {
            KebabIdentOrStr::KebabIdent(k) => k.spec_span(),
            KebabIdentOrStr::Str(s) => s.spec_span(),
        }
    }

    pub fn span(&self) -> (s: Span)
        ensures
            s == self.spec_span(),
    {
        match self {
            KebabIdentOrStr::KebabIdent(k) => k.span(),
            KebabIdentOrStr::Str(s) => s.span(),
        }
    }

    pub fn clone_key(&self) -> (r: KebabIdentOrStr)
        ensures
            r.spec_span() == self.spec_span(),
            key_view(r) == key_view(*self),
    {
        match self {
            KebabIdentOrStr::KebabIdent(k) => KebabIdentOrStr::KebabIdent(k.clone_ident()),
            KebabIdentOrStr::Str(s) => KebabIdentOrStr::Str(s.deep_clone()),
        }
    }

    /// The key as a string literal token: the ident's repr in quotes, or the
    /// string literal itself.
    pub fn to_lit_str(&self) -> (t: TokenTree)
        ensures
            tree_view(t) == key_lit_str(*self),
    {
        match self {
            KebabIdentOrStr::KebabIdent(k) => k.to_lit_str(),
            KebabIdentOrStr::Str(s) => s.deep_clone(),
        }
    }

    /// The key as a string literal token with no span, so that it is not
    /// colored as a string where it is written.
    pub fn to_unspanned_string(&self) -> (t: TokenTree)
        ensures
            tree_view(t) == Tok::Literal(key_lit_text(*self), Span::CallSite),
    {
        match self {
            KebabIdentOrStr::KebabIdent(k) => TokenTree::Literal { text: quote_chars(k.repr_chars()), span: Span::CallSite },
            KebabIdentOrStr::Str(s) => match s {
                TokenTree::Literal { text, .. } => TokenTree::Literal { text: copy_chars(text), span: Span::CallSite },
                TokenTree::Ident { text, .. } => TokenTree::Literal { text: copy_chars(text), span: Span::CallSite },
                TokenTree::Punct { ch, .. } => {
                    let mut text: Vec<char> = Vec::new();
                    text.push(*ch);
                    TokenTree::Literal { text, span: Span::CallSite }
                },
                TokenTree::Group { .. } => TokenTree::Literal { text: Vec::new(), span: Span::CallSite },
            },
        }
    }

    /// The key as an identifier token; a string literal is no identifier, so
    /// `expected identifier` is reported and a placeholder identifier stands
    /// in.
    pub fn to_ident_or_emit(&self, diags: &mut Vec<Diagnostic>) -> (t: TokenTree)
        ensures
            tree_view(t) == key_ident(*self),
            t is Ident,
            t.text() == key_ident_text(*self),
            t.spec_span() == self.spec_span(),
            self is KebabIdent ==> final(diags)@ == old(diags)@,
            self is Str ==> final(diags)@.len() == old(diags)@.len() + 1
                && extends(old(diags)@, final(diags)@)
                && final(diags)@.last().span == self.spec_span()
                && final(diags)@.last().message@ == "expected identifier"@,
            reports(final(diags)@) == reports(old(diags)@) + key_ident_reports(*self),
    {
        proof {
            assert(reports(diags@) + Seq::<Report>::empty() =~= reports(diags@));
            assert(reports(diags@).push(report(self.spec_span(), "expected identifier"@)) =~= reports(diags@) + seq![report(self.spec_span(), "expected identifier"@)]);
        }
        match self {
            KebabIdentOrStr::KebabIdent(i) => {
                let span = i.span();
                TokenTree::Ident { text: snake_chars(i.repr_chars()), span }
            },
            KebabIdentOrStr::Str(s) => {
                diags.push(Diagnostic::new(s.span(), "expected identifier"));
                TokenTree::Ident { text: crate::text::chars_of("__invalid_identifier_found_str"), span: s.span() }
            },
        }
    }
}

/// What taking a key as an identifier reports: a string key.
pub open spec fn key_ident_reports(k: KebabIdentOrStr) -> Seq<Report> {
    match k {
        KebabIdentOrStr::KebabIdent(_) => Seq::empty(),
        KebabIdentOrStr::Str(_) => seq![report(k.spec_span(), "expected identifier"@)],
    }
}

/// What a key is: the repr of an ident, or the token of a string literal.
pub enum KeyV {
    Ident(Seq<char>, Span),
    Str(Tok),
}

pub open spec fn key_view(k: KebabIdentOrStr) -> KeyV {
    match k {
        KebabIdentOrStr::KebabIdent(i) => KeyV::Ident(i.repr_view(), i.spec_span()),
        KebabIdentOrStr::Str(s) => KeyV::Str(tree_view(s)),
    }
}

pub open spec fn key_lit_str(k: KebabIdentOrStr) -> Tok {
    match k {
        KebabIdentOrStr::KebabIdent(i) => Tok::Literal(quoted(i.repr_view()), i.spec_span()),
        KebabIdentOrStr::Str(s) => tree_view(s),
    }
}

/// The source text of the key as a string literal.
pub open spec fn key_lit_text(k: KebabIdentOrStr) -> Seq<char> {
    match k {
        KebabIdentOrStr::KebabIdent(i) => quoted(i.repr_view()),
        KebabIdentOrStr::Str(s) => s.text(),
    }
}

pub open spec fn key_ident_text(k: KebabIdentOrStr) -> Seq<char> {
    match k {
        KebabIdentOrStr::KebabIdent(i) => snake_text(i.repr_view()),
        KebabIdentOrStr::Str(s) => "__invalid_identifier_found_str"@,
    }
}

pub open spec fn key_ident(k: KebabIdentOrStr) -> Tok {
    Tok::Ident(key_ident_text(k), k.spec_span())
}

/// Whether the token at `p` is a brace group that holds exactly one kebab
/// ident, and where that ident ends inside it.
pub open spec fn braced_kebab_at(s: Seq<TokenTree>, p: int) -> bool {
    &&& 0 <= p < s.len()
    &&& s[p].is_group(Delimiter::Brace)
    &&& kebab_end(s[p].group_stream(), 0) == Some(s[p].group_stream().len() as int)
}

/// Why the brace group at `p` holds no braced kebab ident: no kebab ident
/// at its start, or more tokens after it.
pub open spec fn braced_fail_report(inp: Input, p: int) -> Report {
    match inp.s()[p] {
        TokenTree::Group { stream, close, .. } => {
            let inner = Input { toks: &stream, end: close };
            match kebab_end(stream@, 0) {
                None => report(inner.spec_span_at(0), "expected a kebab-cased ident"@),
                Some(k) => report(inner.spec_span_at(k), "found extra tokens trying to parse braced expression"@),
            }
        },
        _ => report(Span::CallSite, Seq::empty()),
    }
}

/// A kebab ident in braces, like `{abc-123}`.
#[derive(Debug)]
pub struct BracedKebabIdent {
    pub brace_span: Span,
    pub ident: KebabIdent,
}

impl BracedKebabIdent {
    pub fn new(brace_span: Span, ident: KebabIdent) -> (b: BracedKebabIdent)
        ensures
            b.brace_span == brace_span,
            b.ident == ident,
    {
        BracedKebabIdent { brace_span, ident }
    }

    pub fn ident(&self) -> (r: &KebabIdent)
        ensures
            r == &self.ident,
    {
        &self.ident
    }

    /// Parses `{kebab-ident}`. Fails, consuming nothing, unless the next
    /// token is a brace group that holds one kebab ident and nothing else.
    pub fn parse(inp: &Input, pos: usize) -> (r: Result<(BracedKebabIdent, usize), ParseError>)
        ensures
            r is Ok <==> braced_kebab_at(inp.s(), pos as int),
            r matches Ok((b, q)) ==> q == pos + 1 && b.brace_span == inp.s()[pos as int].spec_span()
                && b.ident.repr_view() == concat_text(inp.s()[pos as int].group_stream()),
            r matches Err(e) ==> e is Fail,
            r matches Err(ParseError::Fail(d)) ==> d@ == if inp.spec_peek_group(pos as int, Delimiter::Brace) {
                braced_fail_report(*inp, pos as int)
            } else {
                report(inp.spec_span_at(pos as int), "no brace found"@)
            },
    {
        if !inp.peek_group(pos, Delimiter::Brace) {
            return Err(inp.error(pos, "no brace found"));
        }
        match &inp.toks[pos] {
            TokenTree::Group { stream, span, close, .. } => {
                let inner = Input { toks: stream, end: *close };
                match parse_kebab_ident(&inner, 0) {
                    Ok((k, q)) => {
                        if q == stream.len() {
                            assert(inner.s().subrange(0, q as int) =~= inner.s());
                            Ok((BracedKebabIdent { brace_span: *span, ident: k }, pos + 1))
                        } else {
                            Err(inner.error(q, "found extra tokens trying to parse braced expression"))
                        }
                    },
                    Err(e) => Err(e),
                }
            },
            _ => Err(inp.error(pos, "no brace found")),
        }
    }

    /// The braced ident as a block value `{ident}`, the ident snake_cased.
    pub fn into_block_value(self) -> (v: Value)
        ensures
            v matches Value::Block { tokens, span } && span == self.brace_span && stream_view(
                tokens@,
            ) == seq![Tok::Ident(snake_text(self.ident.repr_view()), self.ident.spec_span())],
    {
        let t = self.ident.to_snake_ident();
        let mut tokens: Vec<TokenTree> = Vec::new();
        proof {
            assert(stream_view(tokens@) =~= Seq::<Tok>::empty());
        }
        push_tree(&mut tokens, t);
        proof {
            assert(stream_view(tokens@) =~= seq![tree_view(t)]);
        }
        Value::Block { tokens, span: self.brace_span }
    }
}

} // verus!
