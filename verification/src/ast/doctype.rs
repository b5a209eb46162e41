//! The `!DOCTYPE html;` child.

use vstd::prelude::*;

use crate::parse::{lemma_input_len, report, Input, ParseError};
use crate::span::{join, spec_join, Span};
use crate::token::{tree_view, TokenTree};

verus! {

broadcast use lemma_input_len, vstd::std_specs::vec::group_vec_axioms;

/// The `!DOCTYPE html;` element.
///
/// It parses as soon as a `!` is found at a child position; whatever of
/// `DOCTYPE html;` is missing is reported when it is expanded, with a hint on
/// how to complete it.
#[derive(Debug)]
pub struct Doctype {
    pub bang: Span,
    pub doctype: Option<TokenTree>,
    pub html: Option<TokenTree>,
    pub semi: Option<Span>,
}

/// Whether the optional token `t` is the identifier at `p`, taken if one
/// is there.
pub open spec fn ident_taken(inp: Input, p: int, t: Option<TokenTree>) -> bool {
    if inp.spec_peek_ident(p) {
        t matches Some(x) && x is Ident && tree_view(x) == tree_view(inp.s()[p]) && x.text() == inp.s()[p].text()
            && x.spec_span() == inp.s()[p].spec_span()
    } else {
        t is None
    }
}

/// Where the doctype at `p` ends: past the `!`, each identifier after it,
/// and the `;`, each taken if it is there.
pub open spec fn doctype_end(inp: Input, p: int) -> int {
    let p1 = if inp.spec_peek_ident(p + 1) { p + 2 } else { p + 1 };
    let p2 = if inp.spec_peek_ident(p1) { p1 + 1 } else { p1 };
    if inp.spec_peek_punct(p2, ';') {
        p2 + 1
    } else {
        p2
    }
}

/// What a doctype parsed from `p` up to `q` holds: the `!`, then an
/// identifier, another identifier and a `;`, each taken if it is there.
pub open spec fn doctype_parsed(inp: Input, p: int, d: Doctype, q: int) -> bool {
    let p1 = if inp.spec_peek_ident(p + 1) { p + 2 } else { p + 1 };
    let p2 = if inp.spec_peek_ident(p1) { p1 + 1 } else { p1 };
    &&& d.bang == inp.s()[p].spec_span()
    &&& ident_taken(inp, p + 1, d.doctype)
    &&& ident_taken(inp, p1, d.html)
    &&& if inp.spec_peek_punct(p2, ';') {
        d.semi == Some(inp.s()[p2].spec_span()) && q == p2 + 1
    } else {
        d.semi is None && q == p2
    }
}

impl Doctype {
    pub open spec fn spec_span(self) -> Span {
        let last = match self.semi {
            Some(s) => s,
            None => match self.html {
                Some(h) => h.spec_span(),
                None => match self.doctype {
                    Some(d) => d.spec_span(),
                    None => self.bang,
                },
            },
        };
        spec_join(self.bang, last)
    }

    /// The span from the `!` to the last token of the doctype.
    pub fn span(&self) -> (s: Span)
        ensures
            s == self.spec_span(),
    {
        let last = match self.semi {
            Some(s) => s,
            None => match &self.html {
                Some(h) => h.span(),
                None => match &self.doctype {
                    Some(d) => d.span(),
                    None => self.bang,
                },
            },
        };
        join(self.bang, last)
    }

    /// Parses `!`, then an identifier, another identifier and a `;`, each
    /// taken only if it is there. Fails, consuming nothing, without the `!`.
    pub fn parse(inp: &Input, pos: usize) -> (r: Result<(Doctype, usize), ParseError>)
        ensures
            r is Ok <==> inp.spec_peek_punct(pos as int, '!'),
            r matches Err(e) ==> e is Fail,
            r matches Err(ParseError::Fail(d)) ==> d@ == report(inp.spec_span_at(pos as int), "expected ! to start DOCTYPE"@),
            r matches Ok((d, q)) ==> {
                &&& pos < q <= inp.len()
                &&& q <= pos + 4
                &&& doctype_parsed(*inp, pos as int, d, q as int)
            },
    {
        if !inp.peek_punct(pos, '!') {
            return Err(inp.error(pos, "expected ! to start DOCTYPE"));
        }
        let bang = inp.span_at(pos);
        let mut p = pos + 1;
        let doctype = if inp.peek_ident(p) {
            p = p + 1;
            Some(inp.toks[p - 1].deep_clone())
        } else {
            None
        };
        let html = if inp.peek_ident(p) {
            p = p + 1;
            Some(inp.toks[p - 1].deep_clone())
        } else {
            None
        };
        let semi = if inp.peek_punct(p, ';') {
            p = p + 1;
            Some(inp.span_at(p - 1))
        } else {
            None
        };
        Ok((Doctype { bang, doctype, html, semi }, p))
    }
}

} // verus!
