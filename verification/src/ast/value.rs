//! Interpolated Rust values: literals, `{block}`s and `[bracket]`s.

use vstd::prelude::*;

use crate::lit::{literal_kind, syn_lit_kind, LitKind};
use crate::parse::{extends, lemma_input_len, lemma_reports_push, report, reports, Diagnostic, Input, ParseError, Report};
use crate::span::{join, spec_join, Span};
use crate::text::{copy_chars, text_is};
use crate::token::{
    clone_stream, colon2, group, ident, lemma_stream_view, leading_path, push_colon2, push_ident,
    push_path, push_punct, push_tree, stream_view, strs_view, tree_view, Delimiter, Spacing, Tok,
    TokenTree,
};

verus! {

broadcast use lemma_stream_view, lemma_input_len, lemma_reports_push, vstd::std_specs::vec::group_vec_axioms;

/// A Rust value within the macro.
///
/// A `{block}` is placed as it is. A `[bracket]` is wrapped in a closure:
/// `[a.get()]` stands for `{move || a.get()}`, and `f["{}", a]` for
/// `{move || format!("{}", a)}`. Only literals go without delimiters.
///
/// The tokens inside a block or bracket are kept as they are; `span` is the
/// span of the delimiters.
#[derive(Debug)]
pub enum Value {
    Lit(TokenTree),
    Block { tokens: Vec<TokenTree>, span: Span },
    Bracket { tokens: Vec<TokenTree>, span: Span, prefix: Option<TokenTree> },
}

/// `true` or `false`, which `syn` takes for literals.
pub open spec fn is_bool_ident(t: TokenTree) -> bool {
    t is Ident && (t.text() == "true"@ || t.text() == "false"@)
}

/// An integer or floating point literal.
pub open spec fn is_number_lit(t: TokenTree) -> bool {
    t is Literal && (syn_lit_kind(t.text()) == LitKind::Int || syn_lit_kind(t.text())
        == LitKind::Float)
}

/// How many tokens the literal at `p` takes: one for a literal token or a
/// boolean, two for a `-` before a number, none if there is no literal.
pub open spec fn lit_len(s: Seq<TokenTree>, p: int) -> int {
    if 0 <= p < s.len() && (s[p] is Literal || is_bool_ident(s[p])) {
        1
    } else if 0 <= p && p + 1 < s.len() && s[p].is_punct('-') && is_number_lit(s[p + 1]) {
        2
    } else {
        0
    }
}

/// The span of a token stream: its first and last tokens' spans joined.
pub open spec fn stream_span(s: Seq<TokenTree>) -> Span {
    spec_join(s[0].spec_span(), s.last().spec_span())
}

/// What a parsed value stands for, given the tokens at `p`.
pub open spec fn value_parsed(s: Seq<TokenTree>, p: int, v: Value, q: int) -> bool {
    if 0 <= p < s.len() && s[p].is_group(Delimiter::Bracket) {
        &&& q == p + 1
        &&& v matches Value::Bracket { tokens, span, prefix } && prefix is None && stream_view(
            tokens@,
        ) == stream_view(s[p].group_stream()) && span == s[p].spec_span()
    } else if 0 <= p && p + 1 < s.len() && s[p] is Ident && s[p + 1].is_group(Delimiter::Bracket) {
        &&& q == p + 2
        &&& v matches Value::Bracket { tokens, span, prefix } && prefix matches Some(f) && tree_view(
            f,
        ) == tree_view(s[p]) && f is Ident && f.text() == s[p].text() && f.spec_span() == s[p].spec_span()
            && stream_view(tokens@) == stream_view(s[p + 1].group_stream()) && span == s[p
            + 1].spec_span()
    } else if 0 <= p < s.len() && s[p].is_group(Delimiter::Brace) {
        &&& q == p + 1
        &&& v matches Value::Block { tokens, span } && stream_view(tokens@) == stream_view(
            s[p].group_stream(),
        ) && tokens@.len() == s[p].group_stream().len() && span == s[p].spec_span()
    } else if lit_len(s, p) == 1 {
        &&& q == p + 1
        &&& v matches Value::Lit(t) && tree_view(t) == tree_view(s[p]) && t.text() == s[p].text()
            && (t is Literal <==> s[p] is Literal) && t.spec_span() == s[p].spec_span()
    } else if lit_len(s, p) == 2 {
        &&& q == p + 2
        &&& v matches Value::Lit(t) && t is Literal && t.text() == seq!['-'] + s[p + 1].text()
            && t.spec_span() == spec_join(s[p].spec_span(), s[p + 1].spec_span())
    } else {
        false
    }
}

/// Whether a value can start at `p`.
pub open spec fn value_starts(s: Seq<TokenTree>, p: int) -> bool {
    ||| (0 <= p < s.len() && s[p].is_group(Delimiter::Bracket))
    ||| (0 <= p && p + 1 < s.len() && s[p] is Ident && s[p + 1].is_group(Delimiter::Bracket))
    ||| (0 <= p < s.len() && s[p].is_group(Delimiter::Brace))
    ||| lit_len(s, p) > 0
}

/// Where the value that starts at `p` ends.
pub open spec fn value_end(s: Seq<TokenTree>, p: int) -> int {
    if 0 <= p < s.len() && s[p].is_group(Delimiter::Bracket) {
        p + 1
    } else if 0 <= p && p + 1 < s.len() && s[p] is Ident && s[p + 1].is_group(Delimiter::Bracket) {
        p + 2
    } else if 0 <= p < s.len() && s[p].is_group(Delimiter::Brace) {
        p + 1
    } else {
        p + lit_len(s, p)
    }
}

/// Where a value after an `=` ends: nothing is consumed if there is none.
pub open spec fn value_or_missing_end(s: Seq<TokenTree>, p: int) -> int {
    if value_starts(s, p) {
        value_end(s, p)
    } else {
        p
    }
}

/// The span at which a missing value is reported.
pub open spec fn missing_value_span(inp: Input, p: int, fallback: Span) -> Span {
    if p >= inp.len() {
        fallback
    } else {
        inp.spec_span_at(p)
    }
}

/// Whether the value at `p` is a literal: no bracket or block is there,
/// but a literal is.
pub open spec fn lit_value_at(s: Seq<TokenTree>, p: int) -> bool {
    &&& !(0 <= p < s.len() && s[p].is_group(Delimiter::Bracket))
    &&& !(0 <= p && p + 1 < s.len() && s[p] is Ident && s[p + 1].is_group(Delimiter::Bracket))
    &&& !(0 <= p < s.len() && s[p].is_group(Delimiter::Brace))
    &&& lit_len(s, p) > 0
}

/// The text of the literal at `p`: the token's, or `-` and the number's.
pub open spec fn lit_text(s: Seq<TokenTree>, p: int) -> Seq<char> {
    if lit_len(s, p) == 1 {
        s[p].text()
    } else {
        seq!['-'] + s[p + 1].text()
    }
}

/// The span of the literal at `p`.
pub open spec fn lit_span(s: Seq<TokenTree>, p: int) -> Span {
    if lit_len(s, p) == 1 {
        s[p].spec_span()
    } else {
        spec_join(s[p].spec_span(), s[p + 1].spec_span())
    }
}

/// Whether the literal at `p` is a string literal (`true` and `false` are
/// not).
pub open spec fn lit_is_str(s: Seq<TokenTree>, p: int) -> bool {
    (lit_len(s, p) == 2 || s[p] is Literal) && syn_lit_kind(lit_text(s, p)) == LitKind::Str
}

/// What [`Value::parse_or_emit_err`] reports at `p`: a missing value, with
/// a hint where an identifier stands there instead.
pub open spec fn missing_value_reports(inp: Input, p: int, fallback: Span) -> Seq<Report> {
    if value_starts(inp.s(), p) {
        Seq::empty()
    } else {
        seq![Report {
            span: missing_value_span(inp, p, fallback),
            message: "expected value after ="@,
            help: if inp.spec_peek_ident(p) {
                Some("you may have meant to wrap this in braces"@)
            } else {
                None
            },
        }]
    }
}

/// The value that [`Value::parse_or_emit_err`] gives at `p`, ending at `q`.
pub open spec fn value_after_eq(inp: Input, p: int, fallback: Span, v: Value, q: int) -> bool {
    if value_starts(inp.s(), p) {
        value_parsed(inp.s(), p, v, q)
    } else {
        let sp = missing_value_span(inp, p, fallback);
        &&& q == p
        &&& v matches Value::Block { tokens, span } && span == sp && stream_view(tokens@)
            == leading_path(seq!["leptos_mview"@, "MissingValueAfterEq"@], sp)
    }
}

/// Whether a literal starts at `p` (`input.peek(syn::Lit)`).
pub fn peek_lit(inp: &Input, p: usize) -> (r: usize)
    ensures
        r == lit_len(inp.s(), p as int),
{
    if p >= inp.toks.len() {
        return 0;
    }
    match &inp.toks[p] {
        TokenTree::Literal { .. } => 1,
        TokenTree::Ident { text, .. } => if text_is(text, "true") || text_is(text, "false") {
            1
        } else {
            0
        },
        TokenTree::Punct { ch, .. } => {
            if *ch == '-' && p + 1 < inp.toks.len() {
                match &inp.toks[p + 1] {
                    TokenTree::Literal { text, .. } => {
                        let k = literal_kind(text);
                        if k == LitKind::Int || k == LitKind::Float {
                            2
                        } else {
                            0
                        }
                    },
                    _ => 0,
                }
            } else {
                0
            }
        },
        _ => 0,
    }
}

impl Value {
    /// Parses a value at `pos`: a bracket, an identifier prefix and a bracket,
    /// a block, or a literal, tried in this order. Fails, consuming nothing,
    /// if none starts there.
    pub fn parse(inp: &Input, pos: usize) -> (r: Result<(Value, usize), ParseError>)
        ensures
            r is Ok <==> value_starts(inp.s(), pos as int),
            r matches Ok((v, q)) ==> value_parsed(inp.s(), pos as int, v, q as int) && q <= inp.len()
                && q == value_end(inp.s(), pos as int) && q > pos,
            r matches Err(e) ==> e matches ParseError::Fail(d) && d.span == inp.spec_span_at(
                pos as int,
            ) && d.message@ == "invalid value: expected bracket, block or literal"@,
    {
        if inp.peek_group(pos, Delimiter::Bracket) {
            match &inp.toks[pos] {
                TokenTree::Group { stream, span, .. } => {
                    let tokens = clone_stream(stream);
                    return Ok((Value::Bracket { tokens, span: *span, prefix: None }, pos + 1));
                },
                _ => {
                    return Err(inp.error(pos, "invalid value: expected bracket, block or literal"));
                },
            }
        }
        if inp.peek_ident_token(pos) && inp.peek_group(pos + 1, Delimiter::Bracket) {
            let prefix = inp.toks[pos].deep_clone();
            match &inp.toks[pos + 1] {
                TokenTree::Group { stream, span, .. } => {
                    let tokens = clone_stream(stream);
                    return Ok(
                        (Value::Bracket { tokens, span: *span, prefix: Some(prefix) }, pos + 2),
                    );
                },
                _ => {
                    return Err(inp.error(pos, "invalid value: expected bracket, block or literal"));
                },
            }
        }
        if inp.peek_group(pos, Delimiter::Brace) {
            match &inp.toks[pos] {
                TokenTree::Group { stream, span, .. } => {
                    let tokens = clone_stream(stream);
                    return Ok((Value::Block { tokens, span: *span }, pos + 1));
                },
                _ => {
                    return Err(inp.error(pos, "invalid value: expected bracket, block or literal"));
                },
            }
        }
        let n = peek_lit(inp, pos);
        if n == 1 {
            let t = inp.toks[pos].deep_clone();
            return Ok((Value::Lit(t), pos + 1));
        }
        if n == 2 {
            match &inp.toks[pos + 1] {
                TokenTree::Literal { text, span } => {
                    let mut neg: Vec<char> = Vec::new();
                    neg.push('-');
                    let mut i: usize = 0;
                    while i < text.len()
                        invariant
                            i <= text@.len(),
                            neg@ == seq!['-'] + text@.subrange(0, i as int),
                        decreases text.len() - i,
                    {
                        neg.push(text[i]);
                        i = i + 1;
                        assert(neg@ =~= seq!['-'] + text@.subrange(0, i as int));
                    }
                    assert(text@.subrange(0, i as int) =~= text@);
                    let sp = join(inp.toks[pos].span(), *span);
                    return Ok((Value::Lit(TokenTree::Literal { text: neg, span: sp }), pos + 2));
                },
                _ => {
                    return Err(inp.error(pos, "invalid value: expected bracket, block or literal"));
                },
            }
        }
        Err(inp.error(pos, "invalid value: expected bracket, block or literal"))
    }

    pub open spec fn spec_span(self) -> Span {
        match self {
            Value::Lit(t) => t.spec_span(),
            Value::Block { span, .. } => span,
            Value::Bracket { span, .. } => span,
        }
    }

    /// The span of the value; for a block or bracket, that of its delimiters.
    pub fn span(&self) -> (s: Span)
        ensures
            s == self.spec_span(),
    {
        match self {
            Value::Lit(t) => t.span(),
            Value::Block { span, .. } => *span,
            Value::Bracket { span, .. } => *span,
        }
    }

    /// The literal `true`, with no span.
    pub fn new_true() -> (v: Value)
        ensures
            v matches Value::Lit(t) && tree_view(t) == Tok::Ident("true"@, Span::CallSite),
    {
        Value::Lit(ident("true", Span::CallSite))
    }

    /// Whether the value is a literal.
    pub fn is_lit(&self) -> (r: bool)
        ensures
            r == (self is Lit),
    {
        match self {
            Value::Lit(_) => true,
            _ => false,
        }
    }

    /// Whether the value is a block.
    pub fn is_block(&self) -> (r: bool)
        ensures
            r == (self is Block),
    {
        match self {
            Value::Block { .. } => true,
            _ => false,
        }
    }

    /// Whether the value is a bracket, which is wrapped in a closure.
    pub fn is_bracketed(&self) -> (r: bool)
        ensures
            r == (self is Bracket),
    {
        match self {
            Value::Bracket { .. } => true,
            _ => false,
        }
    }

    /// A copy of the value.
    pub fn clone_value(&self) -> (v: Value)
        ensures
            value_view(v) == value_view(*self),
            v.spec_span() == self.spec_span(),
    {
        match self {
            Value::Lit(t) => Value::Lit(t.deep_clone()),
            Value::Block { tokens, span } => Value::Block { tokens: clone_stream(tokens), span: *span },
            Value::Bracket { tokens, span, prefix } => Value::Bracket {
                tokens: clone_stream(tokens),
                span: *span,
                prefix: match prefix {
                    Some(p) => Some(p.deep_clone()),
                    None => None,
                },
            },
        }
    }
}

/// The mathematical value of a [`Value`].
pub enum ValueV {
    Lit(Tok),
    Block(Seq<Tok>, Span),
    Bracket(Seq<Tok>, Span, Option<Tok>),
}

pub open spec fn value_view(v: Value) -> ValueV {
    match v {
        Value::Lit(t) => ValueV::Lit(tree_view(t)),
        Value::Block { tokens, span } => ValueV::Block(stream_view(tokens@), span),
        Value::Bracket { tokens, span, prefix } => ValueV::Bracket(
            stream_view(tokens@),
            span,
            match prefix {
                Some(p) => Some(tree_view(p)),
                None => None,
            },
        ),
    }
}

/// The tokens a value expands to.
pub open spec fn value_tokens(v: Value) -> Seq<Tok> {
    match v {
        Value::Lit(t) => seq![tree_view(t)],
        Value::Block { tokens, span } => {
            let sp = if tokens@.len() == 0 {
                span
            } else {
                stream_span(tokens@)
            };
            seq![Tok::Group(Delimiter::Brace, stream_view(tokens@), sp, sp)]
        },
        Value::Bracket { tokens, span, prefix } => match prefix {
            None => move_closure(span) + seq![
                Tok::Group(Delimiter::Brace, stream_view(tokens@), span, span),
            ],
            Some(f) => if is_f_prefix(f) {
                move_closure(span) + colon2(span) + seq![Tok::Ident("std"@, span)] + colon2(span)
                    + seq![
                    Tok::Ident("format"@, f.spec_span()),
                    Tok::Punct('!', Spacing::Alone, f.spec_span()),
                    Tok::Group(Delimiter::Parenthesis, stream_view(tokens@), span, span),
                ]
            } else {
                Seq::empty()
            },
        },
    }
}

/// `move ||`, spanned at `sp`.
pub open spec fn move_closure(sp: Span) -> Seq<Tok> {
    seq![
        Tok::Ident("move"@, sp),
        Tok::Punct('|', Spacing::Joint, sp),
        Tok::Punct('|', Spacing::Alone, sp),
    ]
}

/// Whether expanding the value reports an error: a prefix other than `f`.
pub open spec fn value_has_bad_prefix(v: Value) -> bool {
    v matches Value::Bracket { prefix, .. } && prefix matches Some(f) && !is_f_prefix(f)
}

/// What expanding the value reports: a bracket's prefix other than `f`.
pub open spec fn value_reports(v: Value) -> Seq<Report> {
    if value_has_bad_prefix(v) {
        seq![report(v.bracket_prefix_span(), "unsupported prefix: only `f` is supported."@)]
    } else {
        Seq::empty()
    }
}

/// The `f` prefix, the only one supported.
pub open spec fn is_f_prefix(f: TokenTree) -> bool {
    f is Ident && f.text() == "f"@
}

/// The span of a token stream that is not empty.
pub fn span_of_stream(s: &Vec<TokenTree>) -> (sp: Span)
    requires
        s@.len() > 0,
    ensures
        sp == stream_span(s@),
{
    join(s[0].span(), s[s.len() - 1].span())
}

fn push_move_closure(out: &mut Vec<TokenTree>, sp: Span)
    ensures
        stream_view(final(out)@) == stream_view(old(out)@) + move_closure(sp),
{
    let ghost s0 = stream_view(out@);
    push_ident(out, "move", sp);
    push_punct(out, '|', Spacing::Joint, sp);
    push_punct(out, '|', Spacing::Alone, sp);
    assert(stream_view(out@) =~= s0 + move_closure(sp));
}

impl Value {
    /// Appends the expansion of the value to `out`.
    ///
    /// A literal is placed as it is, a block too (spanned at its tokens), a
    /// bracket becomes `move || {..}` and an `f[..]` bracket
    /// `move || ::std::format!(..)`. A bracket with any other prefix reports
    /// an error and expands to nothing.
    pub fn to_tokens(&self, out: &mut Vec<TokenTree>, diags: &mut Vec<Diagnostic>)
        ensures
            stream_view(final(out)@) == stream_view(old(out)@) + value_tokens(*self),
            value_has_bad_prefix(*self) ==> final(diags)@.len() == old(diags)@.len() + 1
                && final(diags)@.last().span == self.bracket_prefix_span()
                && final(diags)@.last().message@ == "unsupported prefix: only `f` is supported."@,
            !value_has_bad_prefix(*self) ==> final(diags)@ == old(diags)@,
            extends(old(diags)@, final(diags)@),
            reports(final(diags)@) == reports(old(diags)@) + value_reports(*self),
    {
        let ghost s0 = stream_view(out@);
        let ghost r0 = reports(diags@);
        assert(r0 + Seq::<Report>::empty() =~= r0);
        match self {
            Value::Lit(t) => {
                push_tree(out, t.deep_clone());
                assert(stream_view(out@) =~= s0 + value_tokens(*self));
            },
            Value::Block { tokens, span } => {
                let sp = if tokens.len() == 0 {
                    *span
                } else {
                    span_of_stream(tokens)
                };
                push_tree(out, group(Delimiter::Brace, clone_stream(tokens), sp));
                assert(stream_view(out@) =~= s0 + value_tokens(*self));
            },
            Value::Bracket { tokens, span, prefix } => match prefix {
                None => {
                    push_move_closure(out, *span);
                    push_tree(out, group(Delimiter::Brace, clone_stream(tokens), *span));
                    assert(stream_view(out@) =~= s0 + value_tokens(*self));
                },
                Some(f) => {
                    let is_f = match f {
                        TokenTree::Ident { text, .. } => text_is(text, "f"),
                        _ => false,
                    };
                    if is_f {
                        push_move_closure(out, *span);
                        push_colon2(out, *span);
                        push_ident(out, "std", *span);
                        push_colon2(out, *span);
                        let fs = f.span();
                        push_ident(out, "format", fs);
                        push_punct(out, '!', Spacing::Alone, fs);
                        push_tree(out, group(Delimiter::Parenthesis, clone_stream(tokens), *span));
                        assert(stream_view(out@) =~= s0 + value_tokens(*self));
                    } else {
                        diags.push(Diagnostic::new(f.span(), "unsupported prefix: only `f` is supported."));
                        assert(reports(diags@) =~= r0 + value_reports(*self));
                        assert(stream_view(out@) =~= s0 + value_tokens(*self));
                    }
                },
            },
        }
    }

    pub open spec fn bracket_prefix_span(self) -> Span {
        match self {
            Value::Bracket { prefix, .. } => match prefix {
                Some(f) => f.spec_span(),
                None => Span::CallSite,
            },
            _ => Span::CallSite,
        }
    }

    /// Parses a value after an `=`; if there is none, reports
    /// `expected value after =` and stands in a block that names
    /// `::leptos_mview::MissingValueAfterEq`, so that parsing can go on.
    pub fn parse_or_emit_err(inp: &Input, pos: usize, fallback_span: Span, diags: &mut Vec<Diagnostic>) -> (r: (Value, usize))
        ensures
            value_after_eq(*inp, pos as int, fallback_span, r.0, r.1 as int),
            r.1 == value_or_missing_end(inp.s(), pos as int),
            value_starts(inp.s(), pos as int) ==> final(diags)@ == old(diags)@,
            !value_starts(inp.s(), pos as int) ==> {
                &&& final(diags)@.len() == old(diags)@.len() + 1
                &&& extends(old(diags)@, final(diags)@)
                &&& final(diags)@.last().span == missing_value_span(*inp, pos as int, fallback_span)
                &&& final(diags)@.last().message@ == "expected value after ="@
                &&& (final(diags)@.last().help is Some <==> inp.spec_peek_ident(pos as int))
            },
            r.1 <= inp.len() || r.1 == pos,
            reports(final(diags)@) == reports(old(diags)@) + missing_value_reports(*inp, pos as int, fallback_span),
    {
        let ghost r0 = reports(diags@);
        assert(r0 + Seq::<Report>::empty() =~= r0);
        match Value::parse(inp, pos) {
            Ok((v, q)) => (v, q),
            Err(_) => {
                let span = if pos >= inp.toks.len() {
                    fallback_span
                } else {
                    inp.span_at(pos)
                };
                let d = if inp.peek_ident(pos) {
                    Diagnostic::with_help(span, "expected value after =", "you may have meant to wrap this in braces")
                } else {
                    Diagnostic::new(span, "expected value after =")
                };
                diags.push(d);
                assert(reports(diags@) =~= r0 + missing_value_reports(*inp, pos as int, fallback_span));
                let mut tokens: Vec<TokenTree> = Vec::new();
                push_path(&mut tokens, &["leptos_mview", "MissingValueAfterEq"], span);
                proof {
                    let segs = seq!["leptos_mview", "MissingValueAfterEq"];
                    assert(strs_view(segs) =~= seq!["leptos_mview"@, "MissingValueAfterEq"@]);
                    assert(stream_view(Seq::<TokenTree>::empty()) =~= Seq::<Tok>::empty());
                }
                (Value::Block { tokens, span }, pos)
            },
        }
    }
}

} // verus!
