//! Class and id shorthands: `div.a-class #an-id`.

use vstd::prelude::*;

use crate::ast::ident::{concat_text, kebab_end, parse_kebab_ident, KebabIdent};
use crate::parse::{lemma_input_len, report, Input, ParseError};
use crate::span::{join, spec_join, Span};
use crate::token::{tree_view, Spacing, Tok, TokenTree};

verus! {

broadcast use lemma_input_len, vstd::std_specs::vec::group_vec_axioms;

/// Whether a shorthand starts at `p`: a `.` or `#` with a kebab ident after.
pub open spec fn selector_at(s: Seq<TokenTree>, p: int) -> bool {
    0 <= p < s.len() && (s[p].is_punct('.') || s[p].is_punct('#')) && kebab_end(s, p + 1) is Some
}

/// A shorthand for a class (prefixed with `.`) or an id (prefixed with `#`).
#[derive(Debug)]
pub enum SelectorShorthand {
    Id { pound_symbol: Span, id: KebabIdent },
    Class { dot_symbol: Span, class: KebabIdent },
}

impl SelectorShorthand {
    pub open spec fn spec_ident(self) -> KebabIdent {
        match self {
            SelectorShorthand::Id { id, .. } => id,
            SelectorShorthand::Class { class, .. } => class,
        }
    }

    pub open spec fn prefix_span(self) -> Span {
        match self {
            SelectorShorthand::Id { pound_symbol, .. } => pound_symbol,
            SelectorShorthand::Class { dot_symbol, .. } => dot_symbol,
        }
    }

    /// The class or id.
    pub fn ident(&self) -> (k: &KebabIdent)
        ensures
            *k == self.spec_ident(),
    {
        match self {
            SelectorShorthand::Id { id, .. } => id,
            SelectorShorthand::Class { class, .. } => class,
        }
    }

    /// The span of the `#` or `.`.
    pub fn prefix_symbol_span(&self) -> (s: Span)
        ensures
            s == self.prefix_span(),
    {
        match self {
            SelectorShorthand::Id { pound_symbol, .. } => *pound_symbol,
            SelectorShorthand::Class { dot_symbol, .. } => *dot_symbol,
        }
    }

    /// The `#` or `.` before the ident, as a token.
    pub fn prefix(&self) -> (t: TokenTree)
        ensures
            tree_view(t) == Tok::Punct(
                if self is Id { '#' } else { '.' },
                Spacing::Alone,
                self.prefix_span(),
            ),
    {
        match self {
            SelectorShorthand::Id { pound_symbol, .. } => TokenTree::Punct { ch: '#', spacing: Spacing::Alone, span: *pound_symbol },
            SelectorShorthand::Class { dot_symbol, .. } => TokenTree::Punct { ch: '.', spacing: Spacing::Alone, span: *dot_symbol },
        }
    }

    pub open spec fn spec_span(self) -> Span {
        spec_join(self.prefix_span(), self.spec_ident().spec_span())
    }

    /// The span from the prefix to the end of the ident.
    pub fn span(&self) -> (s: Span)
        ensures
            s == self.spec_span(),
    {
        match self {
            SelectorShorthand::Id { pound_symbol, id } => join(*pound_symbol, id.span()),
            SelectorShorthand::Class { dot_symbol, class } => join(*dot_symbol, class.span()),
        }
    }

    /// Parses `.class` or `#id`. Fails, consuming nothing, unless
    /// [`selector_at`].
    pub fn parse(inp: &Input, pos: usize) -> (r: Result<(SelectorShorthand, usize), ParseError>)
        ensures
            r is Ok <==> selector_at(inp.s(), pos as int),
            r matches Err(e) ==> e is Fail,
            r matches Ok((sel, q)) ==> {
                &&& q as int == kebab_end(inp.s(), pos + 1)->0
                &&& pos + 1 < q <= inp.len()
                &&& (sel is Class <==> inp.s()[pos as int].is_punct('.'))
                &&& sel.prefix_span() == inp.s()[pos as int].spec_span()
                &&& sel.spec_ident().repr_view() == concat_text(inp.s().subrange(pos + 1, q as int))
            },
            r matches Err(ParseError::Fail(d)) ==> d@ == if inp.spec_peek_punct(pos as int, '.') || inp.spec_peek_punct(
                pos as int,
                '#',
            ) {
                report(inp.spec_span_at(pos + 1), "expected a kebab-cased ident"@)
            } else {
                report(inp.spec_span_at(pos as int), "no class or id shorthand found"@)
            },
    {
        if inp.peek_punct(pos, '.') {
            let dot_symbol = inp.span_at(pos);
            match parse_kebab_ident(inp, pos + 1) {
                Ok((class, q)) => Ok((SelectorShorthand::Class { dot_symbol, class }, q)),
                Err(e) => Err(e),
            }
        } else if inp.peek_punct(pos, '#') {
            let pound_symbol = inp.span_at(pos);
            match parse_kebab_ident(inp, pos + 1) {
                Ok((id, q)) => Ok((SelectorShorthand::Id { pound_symbol, id }, q)),
                Err(e) => Err(e),
            }
        } else {
            Err(inp.error(pos, "no class or id shorthand found"))
        }
    }
}

/// The class and id shorthands of an element, in the order written.
#[derive(Debug)]
pub struct SelectorShorthands(pub Vec<SelectorShorthand>);

/// Where a run of shorthands from `p` on ends.
pub open spec fn selectors_end(s: Seq<TokenTree>, p: int) -> int
    decreases s.len() - p,
{
    if selector_at(s, p) && p < kebab_end(s, p + 1)->0 <= s.len() {
        selectors_end(s, kebab_end(s, p + 1)->0)
    } else {
        p
    }
}

/// Whether a shorthand is the one written from `p` to `q`: `.` for a class
/// and `#` for an id, then its kebab ident.
pub open spec fn selector_matches(s: Seq<TokenTree>, p: int, q: int, sel: SelectorShorthand) -> bool {
    &&& (sel is Class <==> s[p].is_punct('.'))
    &&& sel.prefix_span() == s[p].spec_span()
    &&& sel.spec_ident().repr_view() == concat_text(s.subrange(p + 1, q))
}

/// Where the shorthands `sels`, written one after the other from `p`, end;
/// `None` if they are not what is written there.
pub open spec fn selectors_run(s: Seq<TokenTree>, p: int, sels: Seq<SelectorShorthand>) -> Option<int>
    decreases sels.len(),
{
    if sels.len() == 0 {
        Some(p)
    } else {
        match selectors_run(s, p, sels.drop_last()) {
            None => None,
            Some(m) => {
                let q = kebab_end(s, m + 1)->0;
                if selector_at(s, m) && m < q <= s.len() && selector_matches(s, m, q, sels.last()) {
                    Some(q)
                } else {
                    None
                }
            },
        }
    }
}

impl SelectorShorthands {
    /// Parses as many shorthands as follow each other.
    pub fn parse(inp: &Input, pos: usize) -> (r: (SelectorShorthands, usize))
        requires
            pos <= inp.len(),
        ensures
            r.1 as int == selectors_end(inp.s(), pos as int),
            pos <= r.1 <= inp.len(),
            !selector_at(inp.s(), r.1 as int),
            selectors_run(inp.s(), pos as int, r.0.0@) == Some(r.1 as int),
    {
        let mut v: Vec<SelectorShorthand> = Vec::new();
        let mut p = pos;
        loop
            invariant
                pos <= p <= inp.len(),
                selectors_end(inp.s(), pos as int) == selectors_end(inp.s(), p as int),
                selectors_run(inp.s(), pos as int, v@) == Some(p as int),
            ensures
                pos <= p <= inp.len(),
                selectors_end(inp.s(), pos as int) == p,
                !selector_at(inp.s(), p as int),
                selectors_run(inp.s(), pos as int, v@) == Some(p as int),
            decreases inp.len() - p,
        {
            match SelectorShorthand::parse(inp, p) {
                Ok((sel, q)) => {
                    let ghost before = v@;
                    v.push(sel);
                    proof {
                        assert(v@.drop_last() =~= before);
                    }
                    p = q;
                },
                Err(_) => {
                    break;
                },
            }
        }
        (SelectorShorthands(v), p)
    }

    pub open spec fn spec_len(self) -> int {
        self.0@.len() as int
    }

    pub fn len(&self) -> (n: usize)
        ensures
            n == self.spec_len(),
    {
        self.0.len()
    }

    /// The shorthands, in order.
    pub fn iter(&self) -> (v: &Vec<SelectorShorthand>)
        ensures
            v@ == self.0@,
    {
        &self.0
    }
}

} // verus!
