//! Source locations.

use vstd::prelude::*;

use crate::token::{push_tree, stream_view, Delimiter, Spacing, Tok, TokenTree};

verus! {

/// A location in the macro's input.
///
/// `Src(lo, hi)` runs from the start of the token numbered `lo` to the end of
/// the token numbered `hi`, in the numbering of the tokens that the macro was
/// given. `CallSite` is the location of the macro invocation itself.
#[derive(Clone, Copy, PartialEq, Eq, Debug, Structural)]
pub enum Span {
    CallSite,
    Src(usize, usize),
}

pub open spec fn spec_join(s1: Span, s2: Span) -> Span {
    match (s1, s2) {
        (Span::Src(lo, _), Span::Src(_, hi)) => Span::Src(lo, hi),
        _ => s1,
    }
}

/// Joins two spans together, returning just the first span if they cannot
/// be joined.
pub fn join(s1: Span, s2: Span) -> (s: Span)
    ensures
        s == spec_join(s1, s2),
{
    match (s1, s2) {
        (Span::Src(lo, _), Span::Src(_, hi)) => Span::Src(lo, hi),
        _ => s1,
    }
}

/// `let _ = ();`, with the `_` at `sp`.
pub open spec fn colored_item(sp: Span) -> Seq<Tok> {
    seq![
        Tok::Ident("let"@, Span::CallSite),
        Tok::Ident("_"@, sp),
        Tok::Punct('=', Spacing::Alone, Span::CallSite),
        Tok::Group(Delimiter::Parenthesis, Seq::empty(), Span::CallSite, Span::CallSite),
        Tok::Punct(';', Spacing::Alone, Span::CallSite),
    ]
}

pub open spec fn colored_items(spans: Seq<Span>) -> Seq<Tok>
    decreases spans.len(),
{
    if spans.len() == 0 {
        Seq::empty()
    } else {
        colored_items(spans.drop_last()) + colored_item(spans.last())
    }
}

/// Gives each span the color of a variable: a `let _ = ();` for each, the
/// `_` at the span, to be put in a block.
pub fn color_all(spans: &Vec<Span>) -> (r: Vec<TokenTree>)
    ensures
        stream_view(r@) == colored_items(spans@),
{
    let mut stream: Vec<TokenTree> = Vec::new();
    proof {
        assert(stream_view(stream@) =~= Seq::<Tok>::empty());
    }
    let mut i: usize = 0;
    while i < spans.len()
        invariant
            i <= spans@.len(),
            stream_view(stream@) == colored_items(spans@.subrange(0, i as int)),
        decreases spans.len() - i,
    {
        let ghost before = stream@;
        let sp = spans[i];
        push_tree(&mut stream, TokenTree::Ident { text: crate::text::chars_of("let"), span: Span::CallSite });
        push_tree(&mut stream, TokenTree::Ident { text: crate::text::chars_of("_"), span: sp });
        push_tree(&mut stream, TokenTree::Punct { ch: '=', spacing: Spacing::Alone, span: Span::CallSite });
        let empty: Vec<TokenTree> = Vec::new();
        proof {
            assert(stream_view(empty@) =~= Seq::<Tok>::empty());
        }
        push_tree(&mut stream, TokenTree::Group { delim: Delimiter::Parenthesis, stream: empty, span: Span::CallSite, close: Span::CallSite });
        push_tree(&mut stream, TokenTree::Punct { ch: ';', spacing: Spacing::Alone, span: Span::CallSite });
        i = i + 1;
        proof {
            assert(spans@.subrange(0, i as int).drop_last() =~= spans@.subrange(0, i - 1));
            assert(stream_view(stream@) =~= stream_view(before) + colored_item(sp));
        }
    }
    proof {
        assert(spans@.subrange(0, i as int) =~= spans@);
    }
    stream
}

} // verus!
