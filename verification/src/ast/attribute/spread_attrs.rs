//! Spread attributes like `{..attrs}`.

use vstd::prelude::*;

use crate::parse::{lemma_input_len, report, Input, ParseError};
use crate::span::{join, spec_join, Span};
use crate::token::{clone_stream, stream_view, Delimiter, TokenTree};

verus! {

broadcast use lemma_input_len, vstd::std_specs::vec::group_vec_axioms;

/// Whether a spread attribute is at `p`: a brace group that begins with `..`.
pub open spec fn spread_at(s: Seq<TokenTree>, p: int) -> bool {
    &&& 0 <= p < s.len()
    &&& s[p].is_group(Delimiter::Brace)
    &&& s[p].group_stream().len() >= 2
    &&& s[p].group_stream()[0].is_joint_punct('.')
    &&& s[p].group_stream()[1].is_punct('.')
}

/// What a spread attribute parsed at `p` holds: the span of its braces and
/// of its `..`, and the tokens after the `..`.
pub open spec fn spread_parsed(s: Seq<TokenTree>, p: int, a: SpreadAttr) -> bool {
    let g = s[p].group_stream();
    &&& a.spec_braces() == s[p].spec_span()
    &&& a.spec_dotdot() == spec_join(g[0].spec_span(), g[1].spec_span())
    &&& stream_view(a.spec_rest()) == stream_view(g.subrange(2, g.len() as int))
}

/// A spread attribute like `{..attrs}`: whatever follows the `..` is kept.
#[derive(Debug)]
pub struct SpreadAttr {
    braces: Span,
    dotdot: Span,
    rest: Vec<TokenTree>,
}

impl SpreadAttr {
    pub closed spec fn spec_braces(self) -> Span {
        self.braces
    }

    pub closed spec fn spec_dotdot(self) -> Span {
        self.dotdot
    }

    pub closed spec fn spec_rest(self) -> Seq<TokenTree> {
        self.rest@
    }

    /// Parses `{..expr}`; fails, consuming nothing, unless [`spread_at`].
    pub fn parse(inp: &Input, pos: usize) -> (r: Result<(SpreadAttr, usize), ParseError>)
        ensures
            r is Ok <==> spread_at(inp.s(), pos as int),
            r matches Err(e) ==> e is Fail,
            r matches Err(ParseError::Fail(d)) ==> d@ == report(
                inp.spec_span_at(pos as int),
                if inp.spec_peek_group(pos as int, Delimiter::Brace) {
                    "invalid spread attribute"@
                } else {
                    "expected curly braces"@
                },
            ),
            r matches Ok((a, q)) ==> {
                let g = inp.s()[pos as int].group_stream();
                &&& q == pos + 1
                &&& a.spec_braces() == inp.s()[pos as int].spec_span()
                &&& a.spec_dotdot() == spec_join(g[0].spec_span(), g[1].spec_span())
                &&& stream_view(a.spec_rest()) == stream_view(g.subrange(2, g.len() as int))
            },
    {
        if !inp.peek_group(pos, Delimiter::Brace) {
            return Err(inp.error(pos, "expected curly braces"));
        }
        match &inp.toks[pos] {
            TokenTree::Group { stream, span, close, .. } => {
                let inner = Input { toks: stream, end: *close };
                if inner.peek_punct2(0, '.', '.') {
                    let dotdot = join(stream[0].span(), stream[1].span());
                    let mut rest: Vec<TokenTree> = Vec::new();
                    let mut i: usize = 2;
                    while i < stream.len()
                        invariant
                            2 <= i <= stream@.len(),
                            rest@.len() == i - 2,
                            forall|j: int| 0 <= j < rest@.len() ==> crate::token::tree_view(#[trigger] rest@[j])
                                == crate::token::tree_view(stream@[j + 2]),
                        decreases stream.len() - i,
                    {
                        rest.push(stream[i].deep_clone());
                        i = i + 1;
                    }
                    proof {
                        let g = stream@.subrange(2, stream@.len() as int);
                        crate::token::lemma_stream_view(rest@);
                        crate::token::lemma_stream_view(g);
                        assert forall|j: int| 0 <= j < rest@.len() implies #[trigger] stream_view(rest@)[j] == stream_view(g)[j] by {
                            assert(g[j] == stream@[j + 2]);
                            assert(stream_view(rest@)[j] == crate::token::tree_view(rest@[j]));
                            assert(stream_view(g)[j] == crate::token::tree_view(g[j]));
                        }
                        assert(stream_view(rest@) =~= stream_view(g));
                    }
                    Ok((SpreadAttr { braces: *span, dotdot, rest }, pos + 1))
                } else {
                    Err(inp.error(pos, "invalid spread attribute"))
                }
            },
            _ => Err(inp.error(pos, "expected curly braces")),
        }
    }

    /// The span of the `..`.
    pub fn dotdot(&self) -> (s: Span)
        ensures
            s == self.spec_dotdot(),
    {
        self.dotdot
    }

    /// The expression after the `..`.
    pub fn expr(&self) -> (e: &Vec<TokenTree>)
        ensures
            e@ == self.spec_rest(),
    {
        &self.rest
    }

    /// The span of the braces around the spread.
    pub fn span(&self) -> (s: Span)
        ensures
            s == self.spec_braces(),
    {
        self.braces
    }
}

} // verus!
