//! Elements: a tag, shorthands, attributes, and children.

use vstd::prelude::*;

use crate::ast::attribute::selector::{selectors_end, selectors_run, SelectorShorthands};
use crate::ast::attribute::{attrs_abort_report, attrs_end, attrs_list_run, attrs_reports, Attr, Attrs};
use crate::ast::children::{children_abort, children_abort_report, children_parsed, Child, Children};
use crate::ast::ident::{concat_text, kebab_end, snake_text};
use crate::ast::tag::{spec_tag_kind, tag_abort_report, tag_end, Tag};
use crate::parse::{
    added, extends, lemma_added, lemma_added_chain, lemma_input_len, lemma_reports_push, report, report_help, reports,
    Diagnostic, Input, ParseError, Report,
};
use crate::span::{join, spec_join, Span};
use crate::token::{lemma_stream_view_push, stream_view, Delimiter, Tok, TokenTree};

verus! {

broadcast use lemma_input_len, vstd::std_specs::vec::group_vec_axioms;

/// An HTML, SVG or MathML element, a web component or a leptos component.
///
/// 1. `tag`: the element's name.
/// 2. `selectors`: class (`.`) and id (`#`) shorthands.
/// 3. `attrs`: a space-separated run of attributes.
/// 4. `children_args`: optional arguments for the children in closure pipes
///    `|...|`, right before the children block; the pipes are kept.
/// 5. `children`: no children (the element ends with `;`), or a block
///    `{ ... }` of children.
#[derive(Debug)]
pub struct Element {
    pub tag: Tag,
    pub selectors: SelectorShorthands,
    pub attrs: Attrs,
    pub children_args: Option<Vec<TokenTree>>,
    pub children: Option<Children>,
}

/// Where the attributes of the element at `p` end: after its tag, its
/// shorthands and its attributes.
pub open spec fn element_attrs_end(inp: Input, p: int) -> int {
    attrs_end(inp, selectors_end(inp.s(), tag_end(inp, p)->0))->0
}

/// What an element parsed from `p` up to `q` holds, and what parsing it
/// reports (`reps`): what its attributes report, then what comes after them.
///
/// Its tag, shorthands and attributes are those written there. After them
/// comes `;` (no children), a children block, closure arguments and
/// (usually) a children block, the end of the input (no children), or
/// something else, which is left for the next child (no children).
pub open spec fn element_parsed(inp: Input, p: int, e: Element, q: int, reps: Seq<Report>) -> bool
    decreases inp.toks@, 2nat,
{
    let k = kebab_end(inp.s(), p)->0;
    let t = tag_end(inp, p)->0;
    let a = element_attrs_end(inp, p);
    let repr = concat_text(inp.s().subrange(p, k));
    &&& kebab_end(inp.s(), p) is Some
    &&& tag_end(inp, p) is Some
    &&& attrs_end(inp, selectors_end(inp.s(), t)) is Some
    &&& p < q <= inp.len()
    &&& e.spec_tag().spec_kind() == spec_tag_kind(repr)
    &&& (e.spec_tag() is WebComponent ==> e.spec_tag().name_text() == repr)
    &&& (!(e.spec_tag() is WebComponent) ==> e.spec_tag().name_text() == snake_text(repr))
    &&& selectors_run(inp.s(), t, e.spec_selectors().0@) == Some(selectors_end(inp.s(), t))
    &&& attrs_list_run(inp, selectors_end(inp.s(), t), e.spec_attrs().0@) == Some(a)
    &&& attrs_reports(inp, selectors_end(inp.s(), t)).len() <= reps.len()
    &&& reps.subrange(0, attrs_reports(inp, selectors_end(inp.s(), t)).len() as int) == attrs_reports(
        inp,
        selectors_end(inp.s(), t),
    )
    &&& element_rest_parsed(
        inp,
        a,
        e,
        q,
        reps.subrange(attrs_reports(inp, selectors_end(inp.s(), t)).len() as int, reps.len() as int),
    )
}

impl Element {
    pub fn new(
        tag: Tag,
        selectors: SelectorShorthands,
        attrs: Attrs,
        children_args: Option<Vec<TokenTree>>,
        children: Option<Children>,
    ) -> (e: Element)
        ensures
            e.spec_tag() == tag,
            e.spec_selectors() == selectors,
            e.spec_attrs() == attrs,
            e.spec_children_args() == children_args,
            e.spec_children() == children,
    {
        Element { tag, selectors, attrs, children_args, children }
    }

    pub open spec fn spec_tag(self) -> Tag {
        self.tag
    }

    pub open spec fn spec_selectors(self) -> SelectorShorthands {
        self.selectors
    }

    pub open spec fn spec_attrs(self) -> Attrs {
        self.attrs
    }

    pub open spec fn spec_children_args(self) -> Option<Vec<TokenTree>> {
        self.children_args
    }

    pub open spec fn spec_children(self) -> Option<Children> {
        self.children
    }

    pub fn tag(&self) -> (t: &Tag)
        ensures
            *t == self.spec_tag(),
    {
        &self.tag
    }

    pub fn selectors(&self) -> (s: &SelectorShorthands)
        ensures
            *s == self.spec_selectors(),
    {
        &self.selectors
    }

    pub fn attrs(&self) -> (a: &Attrs)
        ensures
            *a == self.spec_attrs(),
    {
        &self.attrs
    }

    pub fn children_args(&self) -> (a: Option<&Vec<TokenTree>>)
        ensures
            a matches Some(v) ==> self.spec_children_args() == Some(*v),
            a is None ==> self.spec_children_args() is None,
    {
        self.children_args.as_ref()
    }

    pub fn children(&self) -> (c: Option<&Children>)
        ensures
            c matches Some(v) ==> self.spec_children() == Some(*v),
            c is None ==> self.spec_children() is None,
    {
        self.children.as_ref()
    }

    /// Parses an element at `pos`. Fails, consuming nothing, if no tag is
    /// there; past the tag, anything that does not parse is reported or
    /// aborts the macro.
    ///
    /// After the attributes comes `;` (no children), a children block, or
    /// closure arguments and a children block. At the end of the input the
    /// element is reported as unterminated; any other token is reported as an
    /// unknown attribute and is left for the next child.
    #[verifier::spinoff_prover]
    #[verifier::rlimit(100)]
    pub fn parse(inp: &Input, pos: usize, diags: &mut Vec<Diagnostic>) -> (r: Result<(Element, usize), ParseError>)
        ensures
            kebab_end(inp.s(), pos as int) is None <==> r matches Err(ParseError::Fail(_)),
            kebab_end(inp.s(), pos as int) is Some && tag_end(*inp, pos as int) is None ==> r matches Err(ParseError::Abort(_)),
            tag_end(*inp, pos as int) is Some && attrs_end(*inp, selectors_end(inp.s(), tag_end(*inp, pos as int)->0)) is None
                ==> r matches Err(ParseError::Abort(_)),
            r matches Err(ParseError::Fail(d)) ==> d@ == report(inp.spec_span_at(pos as int), "expected a kebab-cased ident"@)
                && final(diags)@ == old(diags)@,
            r matches Ok((e, q)) ==> element_parsed(*inp, pos as int, e, q as int, added(old(diags)@, final(diags)@)),
            r matches Ok((_, q)) ==> q == element_end(*inp, pos as int),
            r matches Err(ParseError::Abort(_)) <==> element_aborts(*inp, pos as int),
            r matches Err(ParseError::Abort(d)) ==> d@ == element_abort_report(*inp, pos as int),
            extends(old(diags)@, final(diags)@),
        decreases inp.toks@, 2nat,
    {
        let (tag, p1) = match Tag::parse(inp, pos) {
            Ok(x) => x,
            Err(e) => {
                return Err(e);
            },
        };
        let (selectors, p2) = SelectorShorthands::parse(inp, p1);
        let (attrs, p3) = match Attrs::parse(inp, p2, diags) {
            Ok(x) => x,
            Err(e) => {
                return Err(e);
            },
        };
        let ghost d2 = diags@;
        let r = element_rest(inp, tag, selectors, attrs, p3, diags);
        proof {
            lemma_added(old(diags)@, d2);
            lemma_added_chain(old(diags)@, d2, diags@);
            let ar = attrs_reports(*inp, p2 as int);
            assert(reports(d2) == reports(old(diags)@) + ar);
            assert(reports(d2).subrange(old(diags)@.len() as int, d2.len() as int) =~= ar);
            assert(added(old(diags)@, d2) =~= ar);
            let all = added(old(diags)@, diags@);
            assert(all.subrange(0, ar.len() as int) =~= ar);
            assert(all.subrange(ar.len() as int, all.len() as int) =~= added(d2, diags@));
        }
        r
    }
}

/// Whether `cs` are the children parsed from the brace group at `i`, and
/// `reps` what parsing them reports.
pub open spec fn block_children_parsed(inp: Input, i: int, cs: Seq<Child>, reps: Seq<Report>) -> bool
    decreases inp.toks@, 0nat,
{
    if 0 <= i < inp.len() {
        match inp.s()[i] {
            TokenTree::Group { stream, close, .. } => children_parsed(Input { toks: &stream, end: close }, cs, reps),
            _ => false,
        }
    } else {
        false
    }
}

/// The span of an element up to the end of its attributes: to its last
/// attribute, else its last shorthand, else its tag.
pub open spec fn element_last_span(e: Element) -> Span {
    if e.spec_attrs().0@.len() > 0 {
        e.spec_attrs().0@.last().spec_span()
    } else if e.spec_selectors().0@.len() > 0 {
        e.spec_selectors().0@.last().spec_span()
    } else {
        e.spec_tag().spec_span()
    }
}

/// What an element with no children, whose attributes end at `a` and which
/// ends at `q`, reports: nothing after `;`; at the end of the input, that it
/// is unterminated; after closure arguments, that no children block follows;
/// otherwise the token after the attributes, and that no children were
/// found.
pub open spec fn childless_reports(inp: Input, a: int, e: Element, q: int) -> Seq<Report> {
    if inp.spec_peek_punct(a, ';') {
        Seq::empty()
    } else if a >= inp.len() {
        seq![report_help(
            spec_join(e.spec_tag().spec_span(), element_last_span(e)),
            "unterminated element"@,
            "add a `;` to terminate the element with no children"@,
        )]
    } else if inp.spec_peek_punct(a, '|') {
        seq![report(inp.spec_span_at(q), "expected children block after closure arguments"@)]
    } else {
        seq![
            report(inp.spec_span_at(a), "unknown attribute"@),
            report_help(
                spec_join(e.spec_tag().spec_span(), inp.spec_span_at(a)),
                "child elements not found"@,
                "add a `;` at the end to terminate the element"@,
            ),
        ]
    }
}

/// What ends an element whose attributes end at `a`: the element with
/// these parts and what comes after them, where it ends, and what parsing
/// that reports (`reps`). Its children are those of the brace group it ends
/// with.
pub open spec fn element_rest_parsed(inp: Input, a: int, e: Element, q: int, reps: Seq<Report>) -> bool
    decreases inp.toks@, 1nat,
{
    &&& a <= q <= inp.len()
    &&& (e.spec_children() is Some ==> inp.s()[q - 1].is_group(Delimiter::Brace))
    &&& (e.spec_children() matches Some(c) ==> block_children_parsed(inp, q - 1, c.0@, reps))
    &&& (e.spec_children() is None ==> reps == childless_reports(inp, a, e, q))
    &&& (inp.spec_peek_punct(a, ';') ==> q == a + 1 && e.spec_children() is None && e.spec_children_args() is None)
    &&& (a >= inp.len() ==> q == a && e.spec_children() is None && e.spec_children_args() is None)
    &&& (inp.spec_peek_group(a, Delimiter::Brace) ==> q == a + 1 && e.spec_children() is Some && e.spec_children_args() is None)
    &&& (inp.spec_peek_punct(a, '|') ==> {
        let args = e.spec_children_args()->0@;
        let m = a + args.len();
        &&& e.spec_children_args() is Some
        &&& a + 2 <= m <= inp.len()
        &&& stream_view(args) == stream_view(inp.s().subrange(a, m))
        &&& inp.s()[m - 1].is_punct('|')
        &&& forall|i: int| a < i < m - 1 ==> !(#[trigger] inp.s()[i]).is_punct('|')
        &&& (inp.spec_peek_group(m, Delimiter::Brace) ==> q == m + 1 && e.spec_children() is Some)
        &&& (!inp.spec_peek_group(m, Delimiter::Brace) ==> q == m && e.spec_children() is None)
    })
    &&& (a < inp.len() && !inp.spec_peek_punct(a, ';') && !inp.spec_peek_group(a, Delimiter::Brace) && !inp.spec_peek_punct(a, '|')
        ==> q == a && e.spec_children() is None && e.spec_children_args() is None)
}

/// Parses what comes after an element's attributes, which end at `a`: `;`,
/// a children block, closure arguments and a children block; at the end of
/// the input the element is reported as unterminated, any other token as an
/// unknown attribute.
#[verifier::spinoff_prover]
#[verifier::rlimit(60)]
fn element_rest(
    inp: &Input,
    tag: Tag,
    selectors: SelectorShorthands,
    attrs: Attrs,
    a: usize,
    diags: &mut Vec<Diagnostic>,
) -> (r: Result<(Element, usize), ParseError>)
    requires
        a <= inp.len(),
    ensures
        r matches Err(e) ==> e is Abort,
        r matches Ok((e, q)) ==> {
            &&& e.spec_tag() == tag
            &&& e.spec_selectors() == selectors
            &&& e.spec_attrs() == attrs
            &&& element_rest_parsed(*inp, a as int, e, q as int, added(old(diags)@, final(diags)@))
            &&& q == rest_end(*inp, a as int)
        },
        r is Err <==> rest_aborts(*inp, a as int),
        r matches Err(ParseError::Abort(d)) ==> d@ == rest_abort_report(*inp, a as int),
        extends(old(diags)@, final(diags)@),
    decreases inp.toks@, 1nat,
{
    let p3 = a;
    let ghost d0 = diags@;
    proof {
        assert(added(d0, d0) =~= Seq::<Report>::empty());
    }
    if inp.peek_punct(p3, ';') {
        Ok((Element::new(tag, selectors, attrs, None, None), p3 + 1))
    } else if p3 >= inp.toks.len() {
        let last_span = if attrs.len() > 0 {
            attrs.0[attrs.len() - 1].span()
        } else if selectors.len() > 0 {
            selectors.0[selectors.len() - 1].span()
        } else {
            tag.span()
        };
        diags.push(Diagnostic::with_help(
            join(tag.span(), last_span),
            "unterminated element",
            "add a `;` to terminate the element with no children",
        ));
        let e = Element::new(tag, selectors, attrs, None, None);
        proof {
            lemma_reports_push(d0, diags@.last());
            assert(last_span == element_last_span(e));
            assert(added(d0, diags@) =~= childless_reports(*inp, a as int, e, p3 as int));
        }
        Ok((e, p3))
    } else if inp.peek_group(p3, Delimiter::Brace) {
        let children = parse_children_block(inp, p3, diags);
        match children {
            Ok(c) => Ok((Element::new(tag, selectors, attrs, None, Some(c)), p3 + 1)),
            Err(e) => Err(e),
        }
    } else if inp.peek_punct(p3, '|') {
        let (args, p4) = match parse_closure_args(inp, p3) {
            Ok(x) => x,
            Err(e) => {
                return Err(e);
            },
        };
        if inp.peek_group(p4, Delimiter::Brace) {
            let children = parse_children_block(inp, p4, diags);
            match children {
                Ok(c) => Ok((Element::new(tag, selectors, attrs, Some(args), Some(c)), p4 + 1)),
                Err(e) => Err(e),
            }
        } else {
            diags.push(Diagnostic::new(inp.span_at(p4), "expected children block after closure arguments"));
            let e = Element::new(tag, selectors, attrs, Some(args), None);
            proof {
                lemma_reports_push(d0, diags@.last());
                assert(added(d0, diags@) =~= childless_reports(*inp, a as int, e, p4 as int));
            }
            Ok((e, p4))
        }
    } else {
        diags.push(Diagnostic::new(inp.span_at(p3), "unknown attribute"));
        let ghost d1 = diags@;
        diags.push(Diagnostic::with_help(
            join(tag.span(), inp.span_at(p3)),
            "child elements not found",
            "add a `;` at the end to terminate the element",
        ));
        let e = Element::new(tag, selectors, attrs, None, None);
        proof {
            lemma_reports_push(d0, d1.last());
            lemma_reports_push(d1, diags@.last());
            assert(added(d0, diags@) =~= childless_reports(*inp, a as int, e, p3 as int));
        }
        Ok((e, p3))
    }
}

/// Parses the children inside the brace group at `pos`.
fn parse_children_block(inp: &Input, pos: usize, diags: &mut Vec<Diagnostic>) -> (r: Result<Children, ParseError>)
    requires
        inp.spec_peek_group(pos as int, Delimiter::Brace),
    ensures
        r matches Err(e) ==> e is Abort,
        r matches Ok(c) ==> block_children_parsed(*inp, pos as int, c.0@, added(old(diags)@, final(diags)@)),
        r is Err <==> block_aborts(*inp, pos as int),
        r matches Err(ParseError::Abort(d)) ==> d@ == block_abort_report(*inp, pos as int),
        extends(old(diags)@, final(diags)@),
    decreases inp.toks@, 0nat,
{
    match &inp.toks[pos] {
        TokenTree::Group { stream, close, .. } => {
            assert(decreases_to!(inp.toks@ => stream@)) by {
                assert(decreases_to!(inp.toks@ => inp.toks@[pos as int]));
            };
            let inner = Input { toks: stream, end: *close };
            Children::parse(&inner, diags)
        },
        _ => Ok(Children(Vec::new())),
    }
}

/// Where closure arguments whose first `|` is just before `i` end: past the
/// next `|`; `None` if no `|` follows.
pub open spec fn pipe_after(s: Seq<TokenTree>, i: int) -> Option<int>
    decreases s.len() - i,
{
    if i < 0 || i >= s.len() {
        None
    } else if s[i].is_punct('|') {
        Some(i + 1)
    } else {
        pipe_after(s, i + 1)
    }
}

/// Where what comes after an element's attributes, which end at `a`, ends:
/// past `;`, past a children block, past closure arguments (and the
/// children block after them), or at `a`.
pub open spec fn rest_end(inp: Input, a: int) -> int {
    if inp.spec_peek_punct(a, ';') {
        a + 1
    } else if a >= inp.len() {
        a
    } else if inp.spec_peek_group(a, Delimiter::Brace) {
        a + 1
    } else if inp.spec_peek_punct(a, '|') {
        match pipe_after(inp.s(), a + 1) {
            Some(m) => if inp.spec_peek_group(m, Delimiter::Brace) {
                m + 1
            } else {
                m
            },
            None => a,
        }
    } else {
        a
    }
}

/// Where the element at `p` ends.
pub open spec fn element_end(inp: Input, p: int) -> int {
    rest_end(inp, element_attrs_end(inp, p))
}

/// Whether parsing the element at `p` stops the macro: a tag that does not
/// parse, an attribute that does not, or what comes after them.
pub open spec fn element_aborts(inp: Input, p: int) -> bool
    decreases inp.toks@, 0int, 2int,
{
    &&& kebab_end(inp.s(), p) is Some
    &&& {
        ||| tag_end(inp, p) is None
        ||| attrs_end(inp, selectors_end(inp.s(), tag_end(inp, p)->0)) is None
        ||| rest_aborts(inp, element_attrs_end(inp, p))
    }
}

/// Whether parsing what comes after an element's attributes, which end at
/// `a`, stops the macro: closure arguments that do not close, or children
/// that stop it.
pub open spec fn rest_aborts(inp: Input, a: int) -> bool
    decreases inp.toks@, 0int, 1int,
{
    if inp.spec_peek_punct(a, ';') || a >= inp.len() {
        false
    } else if inp.spec_peek_group(a, Delimiter::Brace) {
        block_aborts(inp, a)
    } else if inp.spec_peek_punct(a, '|') {
        match pipe_after(inp.s(), a + 1) {
            None => true,
            Some(m) => inp.spec_peek_group(m, Delimiter::Brace) && block_aborts(inp, m),
        }
    } else {
        false
    }
}

/// Why parsing the element at `p` stops the macro, where it does: its tag,
/// its attributes, or what comes after them.
pub open spec fn element_abort_report(inp: Input, p: int) -> Report
    decreases inp.toks@, 0int, 2int,
{
    if tag_end(inp, p) is None {
        tag_abort_report(inp, p)
    } else if attrs_end(inp, selectors_end(inp.s(), tag_end(inp, p)->0)) is None {
        attrs_abort_report(inp, selectors_end(inp.s(), tag_end(inp, p)->0))
    } else {
        rest_abort_report(inp, element_attrs_end(inp, p))
    }
}

/// Why parsing what comes after an element's attributes, which end at
/// `a`, stops the macro: closure arguments that do not close, or children
/// that stop it.
pub open spec fn rest_abort_report(inp: Input, a: int) -> Report
    decreases inp.toks@, 0int, 1int,
{
    if inp.spec_peek_group(a, Delimiter::Brace) {
        block_abort_report(inp, a)
    } else {
        match pipe_after(inp.s(), a + 1) {
            None => report(inp.spec_span_at(a), "closure arguments not closed"@),
            Some(m) => block_abort_report(inp, m),
        }
    }
}

/// Why parsing the children of the brace group at `i` stops the macro.
pub open spec fn block_abort_report(inp: Input, i: int) -> Report
    decreases inp.toks@, 0int, 0int,
{
    if 0 <= i < inp.len() {
        match inp.s()[i] {
            TokenTree::Group { stream, close, .. } => children_abort_report(Input { toks: &stream, end: close }, 0),
            _ => report(Span::CallSite, Seq::empty()),
        }
    } else {
        report(Span::CallSite, Seq::empty())
    }
}

/// Whether parsing the children of the brace group at `i` stops the macro.
pub open spec fn block_aborts(inp: Input, i: int) -> bool
    decreases inp.toks@, 0int, 0int,
{
    if 0 <= i < inp.len() {
        match inp.s()[i] {
            TokenTree::Group { stream, close, .. } => children_abort(Input { toks: &stream, end: close }, 0),
            _ => false,
        }
    } else {
        false
    }
}

/// Parses closure arguments like `|binding|` or `|(index, item)|`: tokens
/// from a `|` up to the next `|`, both kept. Fails, taking nothing, if there
/// is no `|` at `pos`; aborts if the second `|` is missing.
pub(crate) fn parse_closure_args(inp: &Input, pos: usize) -> (r: Result<(Vec<TokenTree>, usize), ParseError>)
    ensures
        !inp.spec_peek_punct(pos as int, '|') <==> (r matches Err(ParseError::Fail(_))),
        r matches Err(ParseError::Fail(d)) ==> d@ == report(inp.spec_span_at(pos as int), "expected `|`"@),
        inp.spec_peek_punct(pos as int, '|') ==> (r is Ok <==> pipe_after(inp.s(), pos + 1) is Some),
        r matches Err(ParseError::Abort(d)) ==> d@ == report(inp.spec_span_at(pos as int), "closure arguments not closed"@),
        r matches Ok((_, q)) ==> pipe_after(inp.s(), pos + 1) == Some(q as int),
        r matches Ok((args, q)) ==> {
            &&& pos + 2 <= q <= inp.len()
            &&& args@.len() == q - pos
            &&& inp.s()[q - 1].is_punct('|')
            &&& forall|i: int| pos < i < q - 1 ==> !(#[trigger] inp.s()[i]).is_punct('|')
            &&& stream_view(args@) == stream_view(inp.s().subrange(pos as int, q as int))
        },
{
    if !inp.peek_punct(pos, '|') {
        return Err(inp.error(pos, "expected `|`"));
    }
    let mut args: Vec<TokenTree> = Vec::new();
    let t0 = inp.toks[pos].deep_clone();
    proof {
        lemma_stream_view_push(args@, t0);
        assert(inp.s().subrange(pos as int, pos + 1) =~= Seq::<TokenTree>::empty().push(inp.s()[pos as int]));
        lemma_stream_view_push(Seq::<TokenTree>::empty(), inp.s()[pos as int]);
        assert(stream_view(args@) =~= Seq::<Tok>::empty());
        assert(stream_view(Seq::<TokenTree>::empty()) =~= Seq::<Tok>::empty());
    }
    args.push(t0);
    let mut p = pos + 1;
    while p < inp.toks.len()
        invariant
            pos < p <= inp.len(),
            inp.spec_peek_punct(pos as int, '|'),
            args@.len() == p - pos,
            forall|i: int| pos < i < p ==> !(#[trigger] inp.s()[i]).is_punct('|'),
            stream_view(args@) == stream_view(inp.s().subrange(pos as int, p as int)),
            pipe_after(inp.s(), pos + 1) == pipe_after(inp.s(), p as int),
        decreases inp.len() - p,
    {
        let is_pipe = inp.peek_punct(p, '|');
        let t = inp.toks[p].deep_clone();
        proof {
            lemma_stream_view_push(args@, t);
            lemma_stream_view_push(inp.s().subrange(pos as int, p as int), inp.s()[p as int]);
            assert(inp.s().subrange(pos as int, p + 1) =~= inp.s().subrange(pos as int, p as int).push(inp.s()[p as int]));
        }
        args.push(t);
        if is_pipe {
            return Ok((args, p + 1));
        }
        p = p + 1;
    }
    Err(ParseError::Abort(Diagnostic::new(inp.span_at(pos), "closure arguments not closed")))
}

} // verus!
