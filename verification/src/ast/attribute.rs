//! Attributes of an element: key-value pairs, directives and spreads.

use vstd::prelude::*;

pub mod directive;
pub mod kv;
pub mod selector;
pub mod spread_attrs;

use crate::ast::attribute::directive::{directive_end, directive_fail_report, directive_parsed, directive_reports, Directive};
use crate::ast::attribute::kv::{kv_end, kv_parsed, kv_reports, KvAttr};
use crate::ast::attribute::spread_attrs::{spread_at, spread_parsed, SpreadAttr};
use crate::parse::{extends, is_plain_ident, lemma_input_len, report, reports, Diagnostic, Input, ParseError, Report};
use crate::span::Span;
use crate::error_ext::ResultExt;
use crate::token::TokenTree;

verus! {

broadcast use lemma_input_len, vstd::std_specs::vec::group_vec_axioms;

/// One attribute.
#[derive(Debug)]
pub enum Attr {
    Kv(KvAttr),
    Directive(Directive),
    Spread(SpreadAttr),
}

/// Whether an identifier and a `:` start at `p`, which makes a directive.
pub open spec fn directive_starts(inp: Input, p: int) -> bool {
    inp.spec_peek_ident_any(p) && inp.spec_peek_punct(p + 1, ':')
}

/// What parsing an attribute at `p` gives: `Some(Some(q))` for an attribute
/// that ends at `q`, `Some(None)` where none is found, `None` where the macro
/// aborts (a directive that does not parse).
pub open spec fn attr_outcome(inp: Input, p: int) -> Option<Option<int>> {
    if directive_starts(inp, p) {
        match directive_end(inp, p) {
            Some(q) => Some(Some(q)),
            None => None,
        }
    } else if inp.spec_peek_ident(p) {
        Some(kv_end(inp, p))
    } else if kv_end(inp, p) is Some {
        Some(kv_end(inp, p))
    } else if spread_at(inp.s(), p) {
        Some(Some(p + 1))
    } else {
        Some(None)
    }
}

/// What parsing the attribute at `p` reports: a missing value after `=`.
pub open spec fn attr_reports(inp: Input, p: int) -> Seq<Report> {
    if directive_starts(inp, p) {
        directive_reports(inp, p)
    } else {
        kv_reports(inp, p)
    }
}

/// What an attribute parsed from `p` up to `q` holds.
pub open spec fn attr_parsed(inp: Input, p: int, a: Attr, q: int) -> bool {
    match a {
        Attr::Kv(kv) => kv_parsed(inp, p, kv.spec_key(), kv.spec_value(), q),
        Attr::Directive(d) => directive_parsed(inp, p, d, q),
        Attr::Spread(sp) => spread_parsed(inp.s(), p, sp),
    }
}

/// Where the attributes `attrs`, parsed one after the other from `p`, end;
/// `None` if they are not what parsing finds there.
pub open spec fn attrs_list_run(inp: Input, p: int, attrs: Seq<Attr>) -> Option<int>
    decreases attrs.len(),
{
    if attrs.len() == 0 {
        Some(p)
    } else {
        match attrs_list_run(inp, p, attrs.drop_last()) {
            None => None,
            Some(m) => match attr_outcome(inp, m) {
                Some(Some(q)) => if attr_parsed(inp, m, attrs.last(), q) {
                    Some(q)
                } else {
                    None
                },
                _ => None,
            },
        }
    }
}

impl Attr {
    /// Parses an attribute: a directive if an identifier and `:` come first
    /// (the macro aborts if it does not parse), else a key-value attribute,
    /// else a spread attribute.
    pub fn parse(inp: &Input, pos: usize, diags: &mut Vec<Diagnostic>) -> (r: Result<(Attr, usize), ParseError>)
        ensures
            attr_outcome(*inp, pos as int) is None <==> r matches Err(ParseError::Abort(_)),
            attr_outcome(*inp, pos as int) == Some(None::<int>) <==> r matches Err(ParseError::Fail(_)),
            r matches Ok((a, q)) ==> {
                &&& attr_outcome(*inp, pos as int) == Some(Some(q as int))
                &&& pos < q <= inp.len()
                &&& (a is Directive <==> directive_starts(*inp, pos as int))
                &&& (a is Spread <==> (!directive_starts(*inp, pos as int) && !inp.spec_peek_ident(pos as int) && kv_end(*inp, pos as int) is None))
                &&& attr_parsed(*inp, pos as int, a, q as int)
            },
            extends(old(diags)@, final(diags)@),
            r is Err ==> final(diags)@ == old(diags)@,
            r is Ok ==> reports(final(diags)@) == reports(old(diags)@) + attr_reports(*inp, pos as int),
            r matches Err(ParseError::Abort(d)) ==> d@ == directive_fail_report(*inp, pos as int),
            r matches Err(ParseError::Fail(d)) ==> d@ == report(inp.spec_span_at(pos as int), "no attribute found"@),
    {
        if inp.peek_ident_any(pos) && inp.peek_punct(pos + 1, ':') {
            match Directive::parse(inp, pos, diags).unwrap_or_abort() {
                Ok((d, q)) => Ok((Attr::Directive(d), q)),
                Err(e) => Err(e),
            }
        } else if inp.peek_ident(pos) {
            match KvAttr::parse(inp, pos, diags) {
                Ok((kv, q)) => Ok((Attr::Kv(kv), q)),
                Err(e) => Err(e),
            }
        } else {
            match KvAttr::parse(inp, pos, diags) {
                Ok((kv, q)) => Ok((Attr::Kv(kv), q)),
                Err(_) => match SpreadAttr::parse(inp, pos) {
                    Ok((s, q)) => Ok((Attr::Spread(s), q)),
                    Err(_) => Err(inp.error(pos, "no attribute found")),
                },
            }
        }
    }

    pub open spec fn spec_span(self) -> Span {
        match self {
            Attr::Kv(kv) => kv.spec_span(),
            Attr::Directive(d) => d.spec_span(),
            Attr::Spread(s) => s.spec_braces(),
        }
    }

    /// The span of the attribute.
    pub fn span(&self) -> (s: Span)
        ensures
            s == self.spec_span(),
    {
        match self {
            Attr::Kv(kv) => kv.span(),
            Attr::Directive(d) => d.span(),
            Attr::Spread(s) => s.span(),
        }
    }

    pub fn is_kv(&self) -> (r: bool)
        ensures
            r == (self is Kv),
    {
        match self {
            Attr::Kv(_) => true,
            _ => false,
        }
    }

    pub fn is_dir(&self) -> (r: bool)
        ensures
            r == (self is Directive),
    {
        match self {
            Attr::Directive(_) => true,
            _ => false,
        }
    }

    pub fn is_spread(&self) -> (r: bool)
        ensures
            r == (self is Spread),
    {
        match self {
            Attr::Spread(_) => true,
            _ => false,
        }
    }
}

/// Whether `pts` are the positions of attributes parsed one after the other
/// from `p`: `pts[0] == p`, each attribute runs from one position to the
/// next, and none is found at the last.
pub open spec fn attrs_run(inp: Input, p: int, pts: Seq<int>) -> bool {
    &&& pts.len() > 0
    &&& pts[0] == p
    &&& forall|i: int| 0 <= i < pts.len() - 1 ==> attr_outcome(inp, #[trigger] pts[i]) == Some(Some(pts[i + 1]))
    &&& attr_outcome(inp, pts.last()) == Some(None::<int>)
}

/// Where the run of attributes from `p` ends; `None` where an attribute
/// aborts the macro.
pub open spec fn attrs_end(inp: Input, p: int) -> Option<int>
    decreases inp.len() - p,
{
    match attr_outcome(inp, p) {
        None => None,
        Some(None) => Some(p),
        Some(Some(q)) => if p < q <= inp.len() {
            attrs_end(inp, q)
        } else {
            None
        },
    }
}

/// What parsing the run of attributes from `p` reports, in order.
pub open spec fn attrs_reports(inp: Input, p: int) -> Seq<Report>
    decreases inp.len() - p,
{
    match attr_outcome(inp, p) {
        Some(Some(q)) => if p < q <= inp.len() {
            attr_reports(inp, p) + attrs_reports(inp, q)
        } else {
            Seq::empty()
        },
        _ => Seq::empty(),
    }
}

/// Why the run of attributes from `p` stops the macro: the first directive
/// that does not parse.
pub open spec fn attrs_abort_report(inp: Input, p: int) -> Report
    decreases inp.len() - p,
{
    match attr_outcome(inp, p) {
        None => directive_fail_report(inp, p),
        Some(Some(q)) => if p < q <= inp.len() {
            attrs_abort_report(inp, q)
        } else {
            report(Span::CallSite, Seq::empty())
        },
        Some(None) => report(Span::CallSite, Seq::empty()),
    }
}

/// A space-separated run of attributes, in the order written.
#[derive(Debug)]
pub struct Attrs(pub Vec<Attr>);

impl Attrs {
    /// Parses attributes until none is found; aborts with the first
    /// attribute that aborts.
    pub fn parse(inp: &Input, pos: usize, diags: &mut Vec<Diagnostic>) -> (r: Result<(Attrs, usize), ParseError>)
        requires
            pos <= inp.len(),
        ensures
            r matches Err(e) ==> e is Abort,
            r matches Ok((a, q)) ==> pos <= q <= inp.len() && exists|pts: Seq<int>| #[trigger] attrs_run(*inp, pos as int, pts) && pts.len() == a.0@.len() + 1 && q == pts.last(),
            r is Ok <==> attrs_end(*inp, pos as int) is Some,
            r matches Ok((_, q)) ==> attrs_end(*inp, pos as int) == Some(q as int),
            r matches Ok((a, q)) ==> attrs_list_run(*inp, pos as int, a.0@) == Some(q as int),
            extends(old(diags)@, final(diags)@),
            r is Ok ==> reports(final(diags)@) == reports(old(diags)@) + attrs_reports(*inp, pos as int),
            r matches Err(ParseError::Abort(d)) ==> d@ == attrs_abort_report(*inp, pos as int),
    {
        let mut v: Vec<Attr> = Vec::new();
        let mut p = pos;
        let ghost mut pts: Seq<int> = seq![pos as int];
        loop
            invariant
                pos <= p <= inp.len(),
                pts.len() == v@.len() + 1,
                pts[0] == pos,
                p == pts.last(),
                attrs_end(*inp, pos as int) == attrs_end(*inp, p as int),
                attrs_list_run(*inp, pos as int, v@) == Some(p as int),
                forall|i: int| 0 <= i < pts.len() - 1 ==> attr_outcome(*inp, #[trigger] pts[i]) == Some(Some(pts[i + 1])),
                extends(old(diags)@, diags@),
                reports(diags@) + attrs_reports(*inp, p as int) == reports(old(diags)@) + attrs_reports(*inp, pos as int),
                attrs_abort_report(*inp, p as int) == attrs_abort_report(*inp, pos as int),
            decreases inp.len() - p,
        {
            let ghost d0 = diags@;
            let ghost r0 = reports(diags@);
            let res = Attr::parse(inp, p, diags);
            match res {
                Ok((a, q)) => {
                    proof {
                        let p2 = pts.push(q as int);
                        assert forall|i: int| 0 <= i < p2.len() - 1 implies attr_outcome(*inp, #[trigger] p2[i]) == Some(Some(p2[i + 1])) by {
                            if i < pts.len() - 1 {
                                assert(p2[i] == pts[i] && p2[i + 1] == pts[i + 1]);
                            }
                        }
                        pts = p2;
                    }
                    let ghost before = v@;
                    v.push(a);
                    proof {
                        assert(v@.drop_last() =~= before);
                        assert(r0 + attrs_reports(*inp, p as int) =~= reports(diags@) + attrs_reports(*inp, q as int));
                    }
                    p = q;
                },
                Err(ParseError::Fail(_)) => {
                    proof {
                        assert(attrs_run(*inp, pos as int, pts));
                        assert(reports(diags@) + attrs_reports(*inp, p as int) =~= reports(diags@));
                    }
                    return Ok((Attrs(v), p));
                },
                Err(e) => {
                    return Err(e);
                },
            }
        }
    }

    pub fn len(&self) -> (n: usize)
        ensures
            n == self.0@.len(),
    {
        self.0.len()
    }

    /// The attributes, in order.
    pub fn iter(&self) -> (v: &Vec<Attr>)
        ensures
            v@ == self.0@,
    {
        &self.0
    }
}

} // verus!
