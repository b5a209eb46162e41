//! A plain-value model of `proc_macro2` token trees.
//!
//! Token trees are what the macro reads and what it writes back. Every piece
//! of text is held as a `Vec<char>` and every location as a [`Span`], so the
//! parser and the expansion can be verified over plain values.

use vstd::prelude::*;

use crate::span::Span;
use crate::text::{chars_of, copy_chars};

verus! {

broadcast use vstd::std_specs::vec::group_vec_axioms;

/// The delimiter of a token group. `None`-delimited groups never reach the
/// library: their contents are spliced into the surrounding stream.
#[derive(Clone, Copy, PartialEq, Eq, Debug, Structural)]
pub enum Delimiter {
    Parenthesis,
    Brace,
    Bracket,
}

/// Whether a punctuation character is immediately followed by another one.
#[derive(Clone, Copy, PartialEq, Eq, Debug, Structural)]
pub enum Spacing {
    Alone,
    Joint,
}

/// A single token tree.
///
/// Identifiers keep their raw prefix (`r#type`) in `text`; literals keep their
/// source representation (`"hi"`, `1u8`, `-3`). A group's `span` covers both
/// delimiters, `close` is the span of the closing delimiter alone.
#[derive(Debug)]
pub enum TokenTree {
    Ident { text: Vec<char>, span: Span },
    Punct { ch: char, spacing: Spacing, span: Span },
    Literal { text: Vec<char>, span: Span },
    Group { delim: Delimiter, stream: Vec<TokenTree>, span: Span, close: Span },
}

/// The mathematical value of a [`TokenTree`].
pub enum Tok {
    Ident(Seq<char>, Span),
    Punct(char, Spacing, Span),
    Literal(Seq<char>, Span),
    Group(Delimiter, Seq<Tok>, Span, Span),
}

pub open spec fn tree_view(t: TokenTree) -> Tok
    decreases t, 1nat,
{
    match t {
        TokenTree::Ident { text, span } => Tok::Ident(text@, span),
        TokenTree::Punct { ch, spacing, span } => Tok::Punct(ch, spacing, span),
        TokenTree::Literal { text, span } => Tok::Literal(text@, span),
        TokenTree::Group { delim, stream, span, close } => Tok::Group(
            delim,
            stream_view(stream@),
            span,
            close,
        ),
    }
}

/// The mathematical value of a token stream.
pub open spec fn stream_view(s: Seq<TokenTree>) -> Seq<Tok>
    decreases s, 0nat,
{
    if s.len() == 0 {
        Seq::empty()
    } else {
        stream_view(s.subrange(0, s.len() - 1)).push(tree_view(s[s.len() - 1]))
    }
}

pub broadcast proof fn lemma_stream_view(s: Seq<TokenTree>)
    ensures
        #[trigger] stream_view(s).len() == s.len(),
        forall|i: int| 0 <= i < s.len() ==> stream_view(s)[i] == tree_view(#[trigger] s[i]),
    decreases s.len(),
{
    if s.len() > 0 {
        let p = s.subrange(0, s.len() - 1);
        lemma_stream_view(p);
        assert forall|i: int| 0 <= i < s.len() implies stream_view(s)[i] == tree_view(
            #[trigger] s[i],
        ) by {
            if i < s.len() - 1 {
                assert(p[i] == s[i]);
            }
        }
    }
}

pub proof fn lemma_stream_view_concat(a: Seq<TokenTree>, b: Seq<TokenTree>)
    ensures
        stream_view(a + b) == stream_view(a) + stream_view(b),
{
    lemma_stream_view(a);
    lemma_stream_view(b);
    lemma_stream_view(a + b);
    assert forall|i: int| 0 <= i < a.len() + b.len() implies #[trigger] stream_view(a + b)[i] == (
    stream_view(a) + stream_view(b))[i] by {
        if i < a.len() {
            assert((a + b)[i] == a[i]);
        } else {
            assert((a + b)[i] == b[i - a.len()]);
        }
    }
    assert(stream_view(a + b) =~= stream_view(a) + stream_view(b));
}

pub proof fn lemma_stream_view_push(a: Seq<TokenTree>, t: TokenTree)
    ensures
        stream_view(a.push(t)) == stream_view(a).push(tree_view(t)),
{
    assert(a.push(t).subrange(0, a.len() as int) =~= a);
}

/// Appends a token tree to a stream.
pub fn push_tree(out: &mut Vec<TokenTree>, t: TokenTree)
    ensures
        final(out)@ == old(out)@.push(t),
        stream_view(final(out)@) == stream_view(old(out)@).push(tree_view(t)),
{
    proof {
        lemma_stream_view_push(old(out)@, t);
    }
    out.push(t);
}


/// Whether `prefix` is where `s` begins.
pub open spec fn begins_with(s: Seq<Tok>, prefix: Seq<Tok>) -> bool {
    prefix.len() <= s.len() && s.subrange(0, prefix.len() as int) == prefix
}

/// Whether `suffix` is where `s` ends.
pub open spec fn ends_with(s: Seq<Tok>, suffix: Seq<Tok>) -> bool {
    suffix.len() <= s.len() && s.subrange(s.len() - suffix.len(), s.len() as int) == suffix
}

/// `::`, spanned at `sp`.
pub open spec fn colon2(sp: Span) -> Seq<Tok> {
    seq![Tok::Punct(':', Spacing::Joint, sp), Tok::Punct(':', Spacing::Alone, sp)]
}

/// `::a::b::c`, every token spanned at `sp`.
pub open spec fn leading_path(segs: Seq<Seq<char>>, sp: Span) -> Seq<Tok>
    decreases segs.len(),
{
    if segs.len() == 0 {
        Seq::empty()
    } else {
        leading_path(segs.drop_last(), sp) + colon2(sp) + seq![Tok::Ident(segs.last(), sp)]
    }
}

pub open spec fn strs_view(segs: Seq<&str>) -> Seq<Seq<char>> {
    segs.map_values(|s: &str| s@)
}

/// An identifier token.
pub fn ident(s: &str, sp: Span) -> (t: TokenTree)
    ensures
        tree_view(t) == Tok::Ident(s@, sp),
        t is Ident,
        t.text() == s@,
        t.spec_span() == sp,
{
    TokenTree::Ident { text: chars_of(s), span: sp }
}

/// A punctuation token.
pub fn punct(c: char, spacing: Spacing, sp: Span) -> (t: TokenTree)
    ensures
        tree_view(t) == Tok::Punct(c, spacing, sp),
{
    TokenTree::Punct { ch: c, spacing, span: sp }
}

/// A group around `stream`, its delimiters spanned at `sp`.
pub fn group(delim: Delimiter, stream: Vec<TokenTree>, sp: Span) -> (t: TokenTree)
    ensures
        tree_view(t) == Tok::Group(delim, stream_view(stream@), sp, sp),
{
    TokenTree::Group { delim, stream, span: sp, close: sp }
}

/// Appends a whole stream to another.
pub fn push_stream(out: &mut Vec<TokenTree>, more: Vec<TokenTree>)
    ensures
        stream_view(final(out)@) == stream_view(old(out)@) + stream_view(more@),
{
    let mut more = more;
    proof {
        lemma_stream_view_concat(old(out)@, more@);
    }
    out.append(&mut more);
}

/// Appends `::`.
pub fn push_colon2(out: &mut Vec<TokenTree>, sp: Span)
    ensures
        stream_view(final(out)@) == stream_view(old(out)@) + colon2(sp),
{
    let ghost s0 = stream_view(out@);
    push_tree(out, punct(':', Spacing::Joint, sp));
    push_tree(out, punct(':', Spacing::Alone, sp));
    assert(stream_view(out@) =~= s0 + colon2(sp));
}

/// Appends an identifier.
pub fn push_ident(out: &mut Vec<TokenTree>, s: &str, sp: Span)
    ensures
        stream_view(final(out)@) == stream_view(old(out)@) + seq![Tok::Ident(s@, sp)],
{
    let ghost s0 = stream_view(out@);
    push_tree(out, ident(s, sp));
    assert(stream_view(out@) =~= s0 + seq![Tok::Ident(s@, sp)]);
}

/// Appends a punctuation.
pub fn push_punct(out: &mut Vec<TokenTree>, c: char, spacing: Spacing, sp: Span)
    ensures
        stream_view(final(out)@) == stream_view(old(out)@) + seq![Tok::Punct(c, spacing, sp)],
{
    let ghost s0 = stream_view(out@);
    push_tree(out, punct(c, spacing, sp));
    assert(stream_view(out@) =~= s0 + seq![Tok::Punct(c, spacing, sp)]);
}

/// Appends a path with a leading `::`, like `::leptos::tachys::html`.
pub fn push_path(out: &mut Vec<TokenTree>, segs: &[&str], sp: Span)
    ensures
        stream_view(final(out)@) == stream_view(old(out)@) + leading_path(strs_view(segs@), sp),
{
    let ghost s0 = stream_view(out@);
    let mut i: usize = 0;
    while i < segs.len()
        invariant
            i <= segs@.len(),
            stream_view(out@) == s0 + leading_path(strs_view(segs@.subrange(0, i as int)), sp),
        decreases segs.len() - i,
    {
        let ghost before = stream_view(out@);
        push_colon2(out, sp);
        push_ident(out, segs[i], sp);
        i = i + 1;
        proof {
            let sub = strs_view(segs@.subrange(0, i as int));
            assert(sub.drop_last() =~= strs_view(segs@.subrange(0, i - 1)));
            assert(sub.last() == segs@[i - 1]@);
            assert(stream_view(out@) =~= s0 + leading_path(sub, sp));
        }
    }
    assert(segs@.subrange(0, i as int) =~= segs@);
}

/// A group token as a one-token stream.
pub open spec fn grouped(delim: Delimiter, inner: Seq<Tok>, sp: Span) -> Seq<Tok> {
    seq![Tok::Group(delim, inner, sp, sp)]
}

/// `.name(args)`: the dot and parentheses at the call site.
pub open spec fn method_call(name: Tok, args: Seq<Tok>) -> Seq<Tok> {
    seq![Tok::Punct('.', Spacing::Alone, Span::CallSite), name] + grouped(
        Delimiter::Parenthesis,
        args,
        Span::CallSite,
    )
}

/// Appends a group around `inner`.
pub fn push_group(out: &mut Vec<TokenTree>, delim: Delimiter, inner: Vec<TokenTree>, sp: Span)
    ensures
        stream_view(final(out)@) == stream_view(old(out)@) + grouped(delim, stream_view(inner@), sp),
{
    let ghost s0 = stream_view(out@);
    let ghost iv = stream_view(inner@);
    push_tree(out, group(delim, inner, sp));
    assert(stream_view(out@) =~= s0 + grouped(delim, iv, sp));
}

/// Appends `.name(args)`, the dot and parentheses at the call site.
pub fn push_method_call(out: &mut Vec<TokenTree>, name: TokenTree, args: Vec<TokenTree>)
    ensures
        stream_view(final(out)@) == stream_view(old(out)@) + method_call(tree_view(name), stream_view(args@)),
{
    let ghost s0 = stream_view(out@);
    let ghost nv = tree_view(name);
    let ghost av = stream_view(args@);
    push_punct(out, '.', Spacing::Alone, Span::CallSite);
    push_tree(out, name);
    push_group(out, Delimiter::Parenthesis, args, Span::CallSite);
    assert(stream_view(out@) =~= s0 + method_call(nv, av));
}

/// An empty stream.
pub fn empty_stream() -> (v: Vec<TokenTree>)
    ensures
        v@.len() == 0,
        stream_view(v@) == Seq::<Tok>::empty(),
{
    let v: Vec<TokenTree> = Vec::new();
    assert(stream_view(v@) =~= Seq::<Tok>::empty());
    v
}

impl TokenTree {
    pub open spec fn spec_span(self) -> Span {
        match self {
            TokenTree::Ident { span, .. } => span,
            TokenTree::Punct { span, .. } => span,
            TokenTree::Literal { span, .. } => span,
            TokenTree::Group { span, .. } => span,
        }
    }

    /// The span of the whole token tree.
    pub fn span(&self) -> (s: Span)
        ensures
            s == self.spec_span(),
    {
        match self {
            TokenTree::Ident { span, .. } => *span,
            TokenTree::Punct { span, .. } => *span,
            TokenTree::Literal { span, .. } => *span,
            TokenTree::Group { span, .. } => *span,
        }
    }

    pub open spec fn is_punct(self, c: char) -> bool {
        self matches TokenTree::Punct { ch, .. } && ch == c
    }

    pub open spec fn is_joint_punct(self, c: char) -> bool {
        self matches TokenTree::Punct { ch, spacing, .. } && ch == c && spacing == Spacing::Joint
    }

    pub open spec fn is_group(self, d: Delimiter) -> bool {
        self matches TokenTree::Group { delim, .. } && delim == d
    }

    /// The text of an identifier or literal, the character of a punctuation.
    pub open spec fn text(self) -> Seq<char> {
        match self {
            TokenTree::Ident { text, .. } => text@,
            TokenTree::Punct { ch, .. } => seq![ch],
            TokenTree::Literal { text, .. } => text@,
            TokenTree::Group { .. } => Seq::empty(),
        }
    }

    pub open spec fn group_stream(self) -> Seq<TokenTree> {
        match self {
            TokenTree::Group { stream, .. } => stream@,
            _ => Seq::empty(),
        }
    }

    /// Deep copy of a token tree.
    pub fn deep_clone(&self) -> (r: TokenTree)
        ensures
            tree_view(r) == tree_view(*self),
            r.spec_span() == self.spec_span(),
            r.text() == self.text(),
            r is Ident <==> self is Ident,
            r is Punct <==> self is Punct,
            r is Literal <==> self is Literal,
            r is Group <==> self is Group,
            forall|c: char| r.is_punct(c) <==> self.is_punct(c),
            forall|d: Delimiter| r.is_group(d) <==> self.is_group(d),
        decreases self,
    {
        match self {
            TokenTree::Ident { text, span } => TokenTree::Ident { text: text.clone(), span: *span },
            TokenTree::Punct { ch, spacing, span } => TokenTree::Punct {
                ch: *ch,
                spacing: *spacing,
                span: *span,
            },
            TokenTree::Literal { text, span } => TokenTree::Literal {
                text: text.clone(),
                span: *span,
            },
            TokenTree::Group { delim, stream, span, close } => {
                assert(decreases_to!(*self => stream@));
                let s = clone_stream(stream);
                TokenTree::Group { delim: *delim, stream: s, span: *span, close: *close }
            },
        }
    }
}

/// Deep copy of a token stream.
pub fn clone_stream(s: &Vec<TokenTree>) -> (r: Vec<TokenTree>)
    ensures
        stream_view(r@) == stream_view(s@),
        r@.len() == s@.len(),
    decreases s@,
{
    let mut r: Vec<TokenTree> = Vec::new();
    let mut i: usize = 0;
    while i < s.len()
        invariant
            i <= s.len(),
            r@.len() == i,
            forall|j: int| 0 <= j < i ==> tree_view(#[trigger] r@[j]) == tree_view(s@[j]),
        decreases s.len() - i,
    {
        assert(decreases_to!(s@ => s@[i as int]));
        let t = s[i].deep_clone();
        r.push(t);
        i = i + 1;
    }
    proof {
        lemma_stream_view(r@);
        lemma_stream_view(s@);
        assert forall|j: int| 0 <= j < r@.len() implies #[trigger] stream_view(r@)[j] == stream_view(
            s@,
        )[j] by {
            assert(tree_view(r@[j]) == tree_view(s@[j]));
        }
        assert(stream_view(r@) =~= stream_view(s@));
    }
    r
}

/// The character that opens a group of this delimiter.
pub open spec fn open_char(d: Delimiter) -> char {
    match d {
        Delimiter::Parenthesis => '(',
        Delimiter::Brace => '{',
        Delimiter::Bracket => '[',
    }
}

/// The character that closes a group of this delimiter.
pub open spec fn close_char(d: Delimiter) -> char {
    match d {
        Delimiter::Parenthesis => ')',
        Delimiter::Brace => '}',
        Delimiter::Bracket => ']',
    }
}

/// How a token is written: its text, or a group's tokens between its
/// delimiters.
pub open spec fn spelled_tok(t: Tok) -> Seq<char>
    decreases t, 1nat,
{
    match t {
        Tok::Ident(text, _) => text,
        Tok::Literal(text, _) => text,
        Tok::Punct(c, _, _) => seq![c],
        Tok::Group(d, inner, _, _) => seq![open_char(d)] + spelled(inner) + seq![close_char(d)],
    }
}

/// What is written after a token: nothing after a punctuation joined to
/// the next, else a space.
pub open spec fn gap_after(t: Tok) -> Seq<char> {
    if t matches Tok::Punct(_, Spacing::Joint, _) {
        Seq::empty()
    } else {
        seq![' ']
    }
}

/// How tokens are written: one after the other, each followed by its gap.
pub open spec fn spelled(s: Seq<Tok>) -> Seq<char>
    decreases s, 0nat,
{
    if s.len() == 0 {
        Seq::empty()
    } else {
        spelled(s.subrange(0, s.len() - 1)) + spelled_tok(s[s.len() - 1]) + gap_after(s[s.len() - 1])
    }
}

/// Appends how the tokens are written.
pub fn spell(toks: &Vec<TokenTree>, out: &mut Vec<char>)
    ensures
        final(out)@ == old(out)@ + spelled(stream_view(toks@)),
    decreases toks@,
{
    let ghost o0 = out@;
    let mut i: usize = 0;
    proof {
        assert(toks@.subrange(0, 0) =~= Seq::<TokenTree>::empty());
        assert(stream_view(Seq::<TokenTree>::empty()) =~= Seq::<Tok>::empty());
        assert(o0 + Seq::<char>::empty() =~= o0);
    }
    while i < toks.len()
        invariant
            i <= toks@.len(),
            out@ == o0 + spelled(stream_view(toks@.subrange(0, i as int))),
        decreases toks.len() - i,
    {
        let ghost before = out@;
        let t = &toks[i];
        assert(decreases_to!(toks@ => toks@[i as int]));
        spell_tree(t, out);
        let joint = match t {
            TokenTree::Punct { spacing: Spacing::Joint, .. } => true,
            _ => false,
        };
        if !joint {
            out.push(' ');
        }
        proof {
            let pre = toks@.subrange(0, i as int);
            let sub = toks@.subrange(0, i + 1);
            assert(sub.subrange(0, sub.len() - 1) =~= pre);
            assert(sub[sub.len() - 1] == toks@[i as int]);
            let sv = stream_view(sub);
            assert(sv == stream_view(pre).push(tree_view(toks@[i as int])));
            assert(sv.subrange(0, sv.len() - 1) =~= stream_view(pre));
            assert(sv[sv.len() - 1] == tree_view(toks@[i as int]));
            assert(out@ =~= o0 + spelled(sv));
        }
        i = i + 1;
    }
    proof {
        assert(toks@.subrange(0, i as int) =~= toks@);
    }
}

/// Appends how the token is written.
pub fn spell_tree(t: &TokenTree, out: &mut Vec<char>)
    ensures
        final(out)@ == old(out)@ + spelled_tok(tree_view(*t)),
    decreases *t,
{
    match t {
        TokenTree::Ident { text, .. } => {
            let mut c = copy_chars(text);
            out.append(&mut c);
        },
        TokenTree::Literal { text, .. } => {
            let mut c = copy_chars(text);
            out.append(&mut c);
        },
        TokenTree::Punct { ch, .. } => {
            out.push(*ch);
        },
        TokenTree::Group { delim, stream, .. } => {
            let ghost o0 = out@;
            let (open, close) = match delim {
                Delimiter::Parenthesis => ('(', ')'),
                Delimiter::Brace => ('{', '}'),
                Delimiter::Bracket => ('[', ']'),
            };
            out.push(open);
            assert(decreases_to!(*t => stream@));
            spell(stream, out);
            out.push(close);
            assert(out@ =~= o0 + spelled_tok(tree_view(*t)));
        },
    }
}

} // verus!
