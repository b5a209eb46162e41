//! The children of an element, and the children at the root of the macro.

use vstd::prelude::*;

use crate::ast::doctype::{doctype_end, doctype_parsed, Doctype};
use crate::ast::element::{element_abort_report, element_aborts, element_end, element_parsed, Element};
use crate::ast::ident::{is_str_lit, kebab_end, peek_lit_str};
use crate::ast::value::{lit_is_str, lit_span, lit_value_at, value_end, value_parsed, value_starts, Value};
use crate::error_ext::SynErrorExt;
use crate::parse::{
    added, extends, lemma_added, lemma_input_len, lemma_reports_push, report, report_help, reports, Diagnostic,
    Input, ParseError, Report,
};
use crate::span::Span;
use crate::token::{stream_view, TokenTree};

verus! {

broadcast use lemma_input_len, vstd::std_specs::vec::group_vec_axioms;

/// A child that is an actual node of the view (not a slot).
#[derive(Debug)]
pub enum NodeChild {
    Value(Value),
    Element(Element),
    Doctype(Doctype),
}

impl NodeChild {
    pub open spec fn spec_span(self) -> Span {
        match self {
            NodeChild::Value(v) => v.spec_span(),
            NodeChild::Element(e) => e.spec_tag().spec_span(),
            NodeChild::Doctype(d) => d.spec_span(),
        }
    }

    /// The span of the child; for an element, that of its tag.
    pub fn span(&self) -> (s: Span)
        ensures
            s == self.spec_span(),
    {
        match self {
            NodeChild::Value(v) => v.span(),
            NodeChild::Element(e) => e.tag().span(),
            NodeChild::Doctype(d) => d.span(),
        }
    }
}

/// A child: a node, or a slot (prefixed with `slot:`).
#[derive(Debug)]
pub enum Child {
    Node(NodeChild),
    Slot(Span, Element),
}

/// Whether `slot:` (and not `slot::`) is at `p`.
pub open spec fn slot_starts(inp: Input, p: int) -> bool {
    &&& inp.spec_peek_ident_text(p, "slot"@)
    &&& inp.spec_peek_punct(p + 1, ':')
    &&& !inp.spec_peek_punct2(p + 1, ':', ':')
}

/// What a child parsed from `p` up to `q` holds, and what parsing it
/// reports (`reps`): a value (a literal must be a string), a slot
/// `slot:Elem`, an element, or a doctype, tried in this order.
pub open spec fn child_parsed(inp: Input, p: int, c: Child, q: int, reps: Seq<Report>) -> bool
    decreases inp.toks@, 3nat,
{
    let s = inp.s();
    if value_starts(s, p) {
        &&& c is Node
        &&& c->Node_0 is Value
        &&& q == value_end(s, p)
        &&& value_parsed(s, p, c->Node_0->Value_0, q)
        &&& reps.len() == 0
    } else if slot_starts(inp, p) {
        &&& c is Slot
        &&& c->Slot_0 == s[p].spec_span()
        &&& element_parsed(inp, p + 2, c->Slot_1, q, reps)
    } else if inp.spec_peek_ident_any(p) {
        &&& c is Node
        &&& c->Node_0 is Element
        &&& element_parsed(inp, p, c->Node_0->Element_0, q, reps)
    } else {
        &&& c is Node
        &&& c->Node_0 is Doctype
        &&& inp.spec_peek_punct(p, '!')
        &&& doctype_parsed(inp, p, c->Node_0->Doctype_0, q)
        &&& reps.len() == 0
    }
}

/// Whether no child parses at `p`: no value, no element, no doctype, or
/// a `slot:` with no element after it.
pub open spec fn child_fails(inp: Input, p: int) -> bool {
    let s = inp.s();
    &&& !value_starts(s, p)
    &&& if slot_starts(inp, p) {
        kebab_end(s, p + 2) is None
    } else {
        !inp.spec_peek_ident_any(p) && !inp.spec_peek_punct(p, '!')
    }
}

/// Where a child that fails at `p` leaves the input: past `slot:`, or at
/// `p`.
pub open spec fn fail_end(inp: Input, p: int) -> int {
    if slot_starts(inp, p) {
        p + 2
    } else {
        p
    }
}

/// Where the child at `p` ends, where one parses there.
pub open spec fn child_end(inp: Input, p: int) -> int {
    if value_starts(inp.s(), p) {
        value_end(inp.s(), p)
    } else if slot_starts(inp, p) {
        element_end(inp, p + 2)
    } else if inp.spec_peek_ident_any(p) {
        element_end(inp, p)
    } else {
        doctype_end(inp, p)
    }
}

/// Whether parsing the child at `p` stops the macro: a literal that is not
/// a string, or an element (or slot) that stops it.
pub open spec fn child_aborts(inp: Input, p: int) -> bool
    decreases inp.toks@, 0int, 3int,
{
    if value_starts(inp.s(), p) {
        lit_value_at(inp.s(), p) && !lit_is_str(inp.s(), p)
    } else if slot_starts(inp, p) {
        element_aborts(inp, p + 2)
    } else if inp.spec_peek_ident_any(p) {
        element_aborts(inp, p)
    } else {
        false
    }
}

/// Why parsing the child at `p` stops the macro, where it does.
pub open spec fn child_abort_report(inp: Input, p: int) -> Report
    decreases inp.toks@, 0int, 3int,
{
    if value_starts(inp.s(), p) {
        report(lit_span(inp.s(), p), "only string literals are allowed in children"@)
    } else if slot_starts(inp, p) {
        element_abort_report(inp, p + 2)
    } else {
        element_abort_report(inp, p)
    }
}

/// What a child that fails at `p` reports: no element after `slot:`, or no
/// child at all.
pub open spec fn fail_report(inp: Input, p: int) -> Report {
    if slot_starts(inp, p) {
        report(inp.spec_span_at(p + 2), "expected a kebab-cased ident"@)
    } else {
        report(inp.spec_span_at(p), "invalid child: expected literal, block, bracket or element"@)
    }
}

impl Child {
    /// Parses a child: a value first (literals must be strings: any other
    /// literal stops the macro), then a slot `slot:Elem`, then an element,
    /// then a `!DOCTYPE`.
    ///
    /// Also returns how far the input was consumed, which may be past `pos`
    /// even when the parse fails (after `slot:`).
    pub fn parse(inp: &Input, pos: usize, diags: &mut Vec<Diagnostic>) -> (r: (Result<Child, ParseError>, usize))
        requires
            pos <= inp.len(),
        ensures
            pos <= r.1 <= inp.len(),
            r.0 is Ok ==> pos < r.1,
            extends(old(diags)@, final(diags)@),
            value_starts(inp.s(), pos as int) ==> (r.0 matches Ok(Child::Node(NodeChild::Value(_))) || r.0 matches Err(ParseError::Abort(_))),
            !value_starts(inp.s(), pos as int) && slot_starts(*inp, pos as int) ==> (r.0 is Err || r.0 matches Ok(Child::Slot(..))),
            !value_starts(inp.s(), pos as int) && !slot_starts(*inp, pos as int) && inp.spec_peek_ident_any(pos as int)
                ==> (r.0 matches Ok(Child::Node(NodeChild::Element(_))) || r.0 matches Err(ParseError::Abort(_))),
            r.0 matches Err(ParseError::Fail(_)) ==> (r.1 == pos || (slot_starts(*inp, pos as int) && r.1 == pos + 2)),
            r.0 matches Err(ParseError::Fail(_)) <==> child_fails(*inp, pos as int),
            r.0 matches Err(ParseError::Fail(_)) ==> r.1 == fail_end(*inp, pos as int),
            r.0 matches Err(ParseError::Fail(d)) ==> d@ == fail_report(*inp, pos as int) && final(diags)@ == old(diags)@,
            r.0 matches Ok(c) ==> child_parsed(*inp, pos as int, c, r.1 as int, added(old(diags)@, final(diags)@)),
            r.0 is Ok ==> r.1 == child_end(*inp, pos as int),
            r.0 matches Err(ParseError::Abort(_)) <==> child_aborts(*inp, pos as int),
            r.0 matches Err(ParseError::Abort(d)) ==> d@ == child_abort_report(*inp, pos as int),
            r.0 matches Ok(Child::Node(NodeChild::Value(Value::Lit(t)))) ==> is_str_lit(t),
        decreases inp.toks@, 3nat,
    {
        proof {
            assert(added(diags@, diags@) =~= Seq::<Report>::empty());
        }
        match Value::parse(inp, pos) {
            Ok((v, q)) => {
                match &v {
                    Value::Lit(t) => {
                        let is_str = match t {
                            TokenTree::Literal { text, .. } => crate::lit::literal_kind(text) == crate::lit::LitKind::Str,
                            _ => false,
                        };
                        if !is_str {
                            let d = Diagnostic::new(t.span(), "only string literals are allowed in children");
                            return (Err(ParseError::Abort(d)), pos);
                        }
                    },
                    _ => {},
                }
                (Ok(Child::Node(NodeChild::Value(v))), q)
            },
            Err(_) => {
                if inp.peek_ident_text(pos, "slot") && inp.peek_punct(pos + 1, ':') && !inp.peek_punct2(pos + 1, ':', ':') {
                    let slot = inp.span_at(pos);
                    match Element::parse(inp, pos + 2, diags) {
                        Ok((e, q)) => (Ok(Child::Slot(slot, e)), q),
                        Err(e) => (Err(e), pos + 2),
                    }
                } else if inp.peek_ident_any(pos) {
                    match Element::parse(inp, pos, diags) {
                        Ok((e, q)) => (Ok(Child::Node(NodeChild::Element(e))), q),
                        Err(e) => (Err(e), pos),
                    }
                } else if inp.peek_punct(pos, '!') {
                    match Doctype::parse(inp, pos) {
                        Ok((d, q)) => (Ok(Child::Node(NodeChild::Doctype(d))), q),
                        Err(e) => (Err(e), pos),
                    }
                } else {
                    (Err(inp.error(pos, "invalid child: expected literal, block, bracket or element")), pos)
                }
            },
        }
    }
}

/// The children that are nodes, in order.
pub open spec fn node_children(s: Seq<Child>) -> Seq<NodeChild>
    decreases s.len(),
{
    if s.len() == 0 {
        Seq::empty()
    } else {
        match s.last() {
            Child::Node(n) => node_children(s.drop_last()).push(n),
            Child::Slot(..) => node_children(s.drop_last()),
        }
    }
}

/// The nodes of two runs of children one after the other are the nodes of
/// the first, then those of the second.
pub proof fn lemma_node_children_concat(a: Seq<Child>, b: Seq<Child>)
    ensures
        node_children(a + b) == node_children(a) + node_children(b),
    decreases b.len(),
{
    if b.len() == 0 {
        assert(a + b =~= a);
        assert(node_children(a) + node_children(b) =~= node_children(a));
    } else {
        lemma_node_children_concat(a, b.drop_last());
        assert((a + b).drop_last() =~= a + b.drop_last());
        assert((a + b).last() == b.last());
        assert(node_children(a + b) =~= node_children(a) + node_children(b));
    }
}

/// The children that are slots, in order.
pub open spec fn slot_children(s: Seq<Child>) -> Seq<Element>
    decreases s.len(),
{
    if s.len() == 0 {
        Seq::empty()
    } else {
        match s.last() {
            Child::Node(_) => slot_children(s.drop_last()),
            Child::Slot(_, e) => slot_children(s.drop_last()).push(e),
        }
    }
}

/// Every child is either a node or a slot: splitting the children into the
/// two loses none and adds none.
pub proof fn law_children_partition(s: Seq<Child>)
    ensures
        node_children(s).len() + slot_children(s).len() == s.len(),
    decreases s.len(),
{
    if s.len() > 0 {
        law_children_partition(s.drop_last());
    }
}

/// Whether `cs` are children parsed one after the other: child `i` from
/// `starts[i]` up to `ends[i]`, reporting `creps[i]`, each after the one
/// before.
pub open spec fn children_at(
    inp: Input,
    cs: Seq<Child>,
    starts: Seq<int>,
    ends: Seq<int>,
    creps: Seq<Seq<Report>>,
) -> bool
    decreases inp.toks@, 5nat,
{
    &&& starts.len() == cs.len()
    &&& ends.len() == cs.len()
    &&& creps.len() == cs.len()
    &&& forall|i: int| 0 <= i < cs.len() ==> 0 <= #[trigger] starts[i] && child_parsed(inp, starts[i], cs[i], ends[i], creps[i])
    &&& forall|i: int| 0 <= i < cs.len() - 1 ==> #[trigger] in_order(starts, ends, i)
}

/// Names a choice of where children begin and end, and what each reports.
pub open spec fn positions(starts: Seq<int>, ends: Seq<int>, creps: Seq<Seq<Report>>) -> bool {
    starts.len() == ends.len() && ends.len() == creps.len()
}

/// Child `i + 1` begins no sooner than child `i` ends.
pub open spec fn in_order(starts: Seq<int>, ends: Seq<int>, i: int) -> bool {
    ends[i] <= starts[i + 1]
}

/// Child `i + 1` begins where child `i` ends.
pub open spec fn adjacent(starts: Seq<int>, ends: Seq<int>, i: int) -> bool {
    ends[i] == starts[i + 1]
}

/// Whether children at `starts` and `ends` are all the input: each begins
/// where the one before ends, the first at the start, the last at the end.
pub open spec fn children_cover(inp: Input, cs: Seq<Child>, starts: Seq<int>, ends: Seq<int>) -> bool {
    &&& cs.len() == 0 ==> inp.len() == 0
    &&& cs.len() > 0 ==> starts[0] == 0 && ends.last() == inp.len()
    &&& forall|i: int| 0 <= i < cs.len() - 1 ==> #[trigger] adjacent(starts, ends, i)
}

proof fn lemma_children_at_push(
    inp: Input,
    cs: Seq<Child>,
    starts: Seq<int>,
    ends: Seq<int>,
    creps: Seq<Seq<Report>>,
    c: Child,
    p: int,
    q: int,
    reps: Seq<Report>,
)
    requires
        children_at(inp, cs, starts, ends, creps),
        child_parsed(inp, p, c, q, reps),
        0 <= p,
        cs.len() > 0 ==> ends.last() <= p,
    ensures
        children_at(inp, cs.push(c), starts.push(p), ends.push(q), creps.push(reps)),
{
    let v2 = cs.push(c);
    let st2 = starts.push(p);
    let en2 = ends.push(q);
    let cr2 = creps.push(reps);
    assert forall|i: int| 0 <= i < v2.len() implies 0 <= #[trigger] st2[i] && child_parsed(inp, st2[i], v2[i], en2[i], cr2[i]) by {
        if i < cs.len() {
            assert(0 <= starts[i] && child_parsed(inp, starts[i], cs[i], ends[i], creps[i]));
        }
    }
    assert forall|i: int| 0 <= i < v2.len() - 1 implies #[trigger] in_order(st2, en2, i) by {
        if i < cs.len() - 1 {
            assert(in_order(starts, ends, i));
        }
    }
}

proof fn lemma_children_contiguous_push(cs: Seq<Child>, starts: Seq<int>, ends: Seq<int>, p: int, q: int)
    requires
        starts.len() == cs.len(),
        ends.len() == cs.len(),
        cs.len() > 0 ==> ends.last() == p,
        forall|i: int| 0 <= i < cs.len() - 1 ==> #[trigger] adjacent(starts, ends, i),
    ensures
        forall|i: int| 0 <= i < cs.len() ==> #[trigger] adjacent(starts.push(p), ends.push(q), i),
{
    assert forall|i: int| 0 <= i < cs.len() implies #[trigger] adjacent(starts.push(p), ends.push(q), i) by {
        if i < cs.len() - 1 {
            assert(adjacent(starts, ends, i));
        }
    }
}

/// Where parsing children from `p` goes on: past each attempt that fails
/// just before a `;`, which is skipped with it.
pub open spec fn skip_end(inp: Input, p: int) -> int
    decreases inp.len() - p,
{
    if 0 <= p < inp.len() && child_fails(inp, p) && inp.spec_peek_punct(fail_end(inp, p), ';') {
        skip_end(inp, fail_end(inp, p) + 1)
    } else {
        p
    }
}

/// What skipping from `p` reports: each attempt that fails before a `;`, as
/// an extra semi-colon.
pub open spec fn skip_reports(inp: Input, p: int) -> Seq<Report>
    decreases inp.len() - p,
{
    if 0 <= p < inp.len() && child_fails(inp, p) && inp.spec_peek_punct(fail_end(inp, p), ';') {
        seq![report_help(fail_report(inp, p).span, "extra semi-colon found"@, "remove this semi-colon"@)]
            + skip_reports(inp, fail_end(inp, p) + 1)
    } else {
        Seq::empty()
    }
}

/// Whether parsing children stops at `p`: at the end of the input, or at an
/// attempt that fails with no `;` after it, where the rest is skipped.
pub open spec fn stops_at(inp: Input, p: int) -> bool {
    p >= inp.len() || (child_fails(inp, p) && !inp.spec_peek_punct(fail_end(inp, p), ';'))
}

/// What stopping at `p` reports: the failure, if parsing stops at one.
pub open spec fn stop_reports(inp: Input, p: int) -> Seq<Report> {
    if 0 <= p < inp.len() && child_fails(inp, p) && !inp.spec_peek_punct(fail_end(inp, p), ';') {
        seq![fail_report(inp, p)]
    } else {
        Seq::empty()
    }
}

/// Where the child before child `i` ends; the start of the input for the
/// first.
pub open spec fn prev_end(ends: Seq<int>, i: int) -> int {
    if i == 0 {
        0
    } else {
        ends[i - 1]
    }
}

/// Whether children at `starts` and `ends` are the ones that parsing finds
/// from the start of the input: each one where parsing goes on after the one
/// before, and after the last, a stop.
pub open spec fn children_run(inp: Input, starts: Seq<int>, ends: Seq<int>) -> bool {
    &&& starts.len() == ends.len()
    &&& forall|i: int| 0 <= i < starts.len() ==> #[trigger] starts[i] == skip_end(inp, prev_end(ends, i))
    &&& stops_at(inp, skip_end(inp, prev_end(ends, starts.len() as int)))
}

/// What parsing the first `k` children reports: for each, what is skipped
/// before it, then what it reports.
pub open spec fn prefix_reports(inp: Input, ends: Seq<int>, creps: Seq<Seq<Report>>, k: int) -> Seq<Report>
    decreases k,
{
    if k <= 0 {
        Seq::empty()
    } else {
        prefix_reports(inp, ends, creps, k - 1) + skip_reports(inp, prev_end(ends, k - 1)) + creps[k - 1]
    }
}

proof fn lemma_prefix_reports_push(
    inp: Input,
    ends: Seq<int>,
    creps: Seq<Seq<Report>>,
    q: int,
    crep: Seq<Report>,
    k: int,
)
    requires
        0 <= k <= ends.len(),
        ends.len() == creps.len(),
    ensures
        prefix_reports(inp, ends.push(q), creps.push(crep), k) == prefix_reports(inp, ends, creps, k),
    decreases k,
{
    if k > 0 {
        lemma_prefix_reports_push(inp, ends, creps, q, crep, k - 1);
        assert(prev_end(ends.push(q), k - 1) == prev_end(ends, k - 1));
    }
}

/// What parsing children reports: what each child and what is skipped
/// before it reports, then what is skipped after the last, and where parsing
/// stops.
pub open spec fn run_reports(inp: Input, ends: Seq<int>, creps: Seq<Seq<Report>>) -> Seq<Report> {
    let n = ends.len() as int;
    prefix_reports(inp, ends, creps, n) + skip_reports(inp, prev_end(ends, n)) + stop_reports(
        inp,
        skip_end(inp, prev_end(ends, n)),
    )
}

/// A skip goes forward.
pub proof fn lemma_skip_end_forward(inp: Input, p: int)
    requires
        0 <= p,
    ensures
        skip_end(inp, p) >= p,
    decreases inp.len() - p,
{
    if 0 <= p < inp.len() && child_fails(inp, p) && inp.spec_peek_punct(fail_end(inp, p), ';') {
        lemma_skip_end_forward(inp, fail_end(inp, p) + 1);
    }
}

/// Whether parsing children from `p` stops the macro: a child that stops it
/// where parsing goes on after those before.
pub open spec fn children_abort(inp: Input, p: int) -> bool
    decreases inp.toks@, inp.len() - p + 1, 0int,
{
    let st = skip_end(inp, p);
    if p < 0 || p > inp.len() || st < p || st >= inp.len() || stops_at(inp, st) {
        false
    } else if child_aborts(inp, st) {
        true
    } else if st < child_end(inp, st) <= inp.len() {
        children_abort(inp, child_end(inp, st))
    } else {
        false
    }
}

/// Why parsing children from `p` stops the macro, where it does: the first
/// child that stops it.
pub open spec fn children_abort_report(inp: Input, p: int) -> Report
    decreases inp.toks@, inp.len() - p + 1, 0int,
{
    let st = skip_end(inp, p);
    if p < 0 || p > inp.len() || st < p || st >= inp.len() || stops_at(inp, st) {
        report(Span::CallSite, Seq::empty())
    } else if child_aborts(inp, st) {
        child_abort_report(inp, st)
    } else if st < child_end(inp, st) <= inp.len() {
        children_abort_report(inp, child_end(inp, st))
    } else {
        report(Span::CallSite, Seq::empty())
    }
}

/// Whether `cs` are the children that parsing finds in the input, one after
/// the other, and `reps` what it reports; where nothing is reported, they are
/// all the input.
pub open spec fn children_parsed(inp: Input, cs: Seq<Child>, reps: Seq<Report>) -> bool
    decreases inp.toks@, 7nat,
{
    exists|starts: Seq<int>, ends: Seq<int>, creps: Seq<Seq<Report>>| {
        &&& #[trigger] positions(starts, ends, creps)
        &&& children_at(inp, cs, starts, ends, creps)
        &&& children_run(inp, starts, ends)
        &&& reps == run_reports(inp, ends, creps)
        &&& reps.len() == 0 ==> children_cover(inp, cs, starts, ends)
    }
}

/// A space-separated run of children, in the order written.
#[derive(Debug)]
pub struct Children(pub Vec<Child>);

impl Children {
    /// Parses children until the stream is used up. A child that does not
    /// parse is reported: before a `;`, as an extra semi-colon that is
    /// skipped; otherwise as it is, and the rest of the stream is skipped.
    pub fn parse(inp: &Input, diags: &mut Vec<Diagnostic>) -> (r: Result<Children, ParseError>)
        ensures
            r matches Err(e) ==> e is Abort,
            r matches Ok(c) ==> c.0@.len() <= inp.len(),
            inp.len() == 0 ==> (r matches Ok(c) && c.0@.len() == 0 && final(diags)@ == old(diags)@),
            r matches Ok(c) ==> children_parsed(*inp, c.0@, added(old(diags)@, final(diags)@)),
            r is Err <==> children_abort(*inp, 0),
            r matches Err(ParseError::Abort(d)) ==> d@ == children_abort_report(*inp, 0),
            extends(old(diags)@, final(diags)@),
        decreases inp.toks@, 4nat,
    {
        let mut v: Vec<Child> = Vec::new();
        let mut p: usize = 0;
        let ghost mut starts: Seq<int> = Seq::empty();
        let ghost mut ends: Seq<int> = Seq::empty();
        let ghost mut creps: Seq<Seq<Report>> = Seq::empty();
        let ghost mut at: int = 0;
        let ghost r_old = reports(diags@);
        proof {
            lemma_skip_end_forward(*inp, 0);
        }
        while p < inp.toks.len()
            invariant
                p <= inp.len(),
                0 <= at <= inp.len(),
                r_old == reports(old(diags)@),
                starts.len() == v@.len(),
                forall|i: int| 0 <= i < starts.len() ==> #[trigger] starts[i] == skip_end(*inp, prev_end(ends, i)),
                skip_end(*inp, at) == skip_end(*inp, prev_end(ends, starts.len() as int)),
                p == at || (p == inp.len() && stops_at(*inp, at) && skip_end(*inp, at) == at),
                p == at ==> children_abort(*inp, 0) == children_abort(*inp, at),
                p == at ==> children_abort_report(*inp, 0) == children_abort_report(*inp, at),
                p != at ==> !children_abort(*inp, 0),
                p == at ==> reports(diags@) + skip_reports(*inp, at) == r_old + prefix_reports(*inp, ends, creps, v@.len() as int)
                    + skip_reports(*inp, prev_end(ends, v@.len() as int)),
                p != at ==> reports(diags@) == r_old + prefix_reports(*inp, ends, creps, v@.len() as int)
                    + skip_reports(*inp, prev_end(ends, v@.len() as int)) + stop_reports(*inp, at),
                v@.len() <= p,
                extends(old(diags)@, diags@),
                inp.len() == 0 ==> diags@ == old(diags)@,
                children_at(*inp, v@, starts, ends, creps),
                v@.len() > 0 ==> ends.last() <= p,
                diags@.len() == old(diags)@.len() ==> {
                    &&& v@.len() == 0 ==> p == 0
                    &&& v@.len() > 0 ==> starts[0] == 0 && ends.last() == p
                    &&& forall|i: int| 0 <= i < v@.len() - 1 ==> #[trigger] adjacent(starts, ends, i)
                },
            decreases inp.len() - p,
        {
            let ghost d0 = diags@;
            let (res, q) = Child::parse(inp, p, diags);
            match res {
                Ok(c) => {
                    let ghost before = v@;
                    proof {
                        let crep = added(d0, diags@);
                        lemma_added(d0, diags@);
                        lemma_children_at_push(*inp, before, starts, ends, creps, c, p as int, q as int, crep);
                        if diags@.len() == old(diags)@.len() {
                            assert(d0.len() == old(diags)@.len());
                            lemma_children_contiguous_push(before, starts, ends, p as int, q as int);
                        }
                        assert(skip_end(*inp, p as int) == p);
                        assert(skip_reports(*inp, p as int) =~= Seq::<Report>::empty());
                        assert(!stops_at(*inp, p as int));
                        assert(children_abort(*inp, p as int) == children_abort(*inp, q as int));
                        assert(children_abort_report(*inp, p as int) == children_abort_report(*inp, q as int));
                        let st2 = starts.push(p as int);
                        let en2 = ends.push(q as int);
                        let cr2 = creps.push(crep);
                        assert forall|i: int| 0 <= i < st2.len() implies #[trigger] st2[i] == skip_end(*inp, prev_end(en2, i)) by {
                            if i < starts.len() {
                                assert(starts[i] == skip_end(*inp, prev_end(ends, i)));
                                assert(prev_end(en2, i) == prev_end(ends, i));
                            }
                        }
                        assert(prev_end(en2, st2.len() as int) == q);
                        let n = before.len() as int;
                        assert(prefix_reports(*inp, en2, cr2, n) == prefix_reports(*inp, ends, creps, n)) by {
                            lemma_prefix_reports_push(*inp, ends, creps, q as int, crep, n);
                        }
                        assert(prev_end(en2, n) == prev_end(ends, n));
                        assert(prefix_reports(*inp, en2, cr2, n + 1) == prefix_reports(*inp, en2, cr2, n)
                            + skip_reports(*inp, prev_end(en2, n)) + cr2[n]);
                        assert(reports(diags@) + skip_reports(*inp, q as int) =~= r_old + prefix_reports(*inp, en2, cr2, n + 1)
                            + skip_reports(*inp, prev_end(en2, n + 1)));
                        starts = st2;
                        ends = en2;
                        creps = cr2;
                        at = q as int;
                    }
                    v.push(c);
                    p = q;
                },
                Err(ParseError::Fail(d)) => {
                    if inp.peek_punct(q, ';') {
                        let ghost r1 = reports(diags@);
                        diags.push(Diagnostic::with_help(d.span, "extra semi-colon found", "remove this semi-colon"));
                        proof {
                            lemma_reports_push(d0, diags@.last());
                            assert(skip_end(*inp, p as int) == skip_end(*inp, q + 1));
                            lemma_skip_end_forward(*inp, q + 1);
                            lemma_skip_end_forward(*inp, p as int);
                            assert(children_abort(*inp, p as int) == children_abort(*inp, q + 1));
                            assert(children_abort_report(*inp, p as int) == children_abort_report(*inp, q + 1));
                            assert(skip_reports(*inp, p as int) == seq![report_help(fail_report(*inp, p as int).span, "extra semi-colon found"@, "remove this semi-colon"@)]
                                + skip_reports(*inp, q + 1));
                            assert(reports(diags@) + skip_reports(*inp, q + 1) =~= r1 + skip_reports(*inp, p as int));
                            at = q + 1;
                        }
                        p = q + 1;
                    } else {
                        let ghost r1 = reports(diags@);
                        d.emit_as_error(diags);
                        proof {
                            lemma_reports_push(d0, d);
                            assert(skip_end(*inp, p as int) == p);
                            assert(skip_reports(*inp, p as int) =~= Seq::<Report>::empty());
                            assert(stop_reports(*inp, p as int) == seq![fail_report(*inp, p as int)]);
                            assert(!children_abort(*inp, p as int));
                            assert(reports(diags@) =~= r1 + skip_reports(*inp, p as int) + stop_reports(*inp, p as int));
                        }
                        p = inp.toks.len();
                    }
                },
                Err(e) => {
                    proof {
                        assert(skip_end(*inp, p as int) == p);
                        assert(children_abort(*inp, p as int));
                        assert(children_abort_report(*inp, p as int) == child_abort_report(*inp, p as int));
                    }
                    return Err(e);
                },
            }
        }
        proof {
            if p == at {
                assert(!children_abort(*inp, at));
            }
            if diags@.len() == old(diags)@.len() {
                assert(children_cover(*inp, v@, starts, ends));
            }
            assert(skip_end(*inp, at) == at);
            if p == at {
                assert(skip_reports(*inp, at) =~= Seq::<Report>::empty());
                assert(stop_reports(*inp, at) =~= Seq::<Report>::empty());
            }
            lemma_added(old(diags)@, diags@);
            assert(added(old(diags)@, diags@) =~= run_reports(*inp, ends, creps));
        }
        let c = Children(v);
        proof {
            assert(children_at(*inp, c.0@, starts, ends, creps));
            assert(positions(starts, ends, creps));
            assert(children_run(*inp, starts, ends));
            assert(children_parsed(*inp, c.0@, added(old(diags)@, final(diags)@)));
        }
        Ok(c)
    }


    pub fn len(&self) -> (n: usize)
        ensures
            n == self.0@.len(),
    {
        self.0.len()
    }

    /// The children, in order.
    pub fn iter(&self) -> (v: &Vec<Child>)
        ensures
            v@ == self.0@,
    {
        &self.0
    }

    /// The children that are not slots, in order.
    pub fn element_children(&self) -> (r: Vec<&NodeChild>)
        ensures
            r@.map_values(|n: &NodeChild| *n) == node_children(self.0@),
    {
        let mut r: Vec<&NodeChild> = Vec::new();
        let mut i: usize = 0;
        while i < self.0.len()
            invariant
                i <= self.0@.len(),
                r@.map_values(|n: &NodeChild| *n) == node_children(self.0@.subrange(0, i as int)),
            decreases self.0.len() - i,
        {
            let ghost sub = self.0@.subrange(0, i + 1);
            assert(sub.drop_last() =~= self.0@.subrange(0, i as int));
            match &self.0[i] {
                Child::Node(n) => {
                    r.push(n);
                },
                Child::Slot(..) => {},
            }
            i = i + 1;
            assert(r@.map_values(|n: &NodeChild| *n) =~= node_children(sub));
        }
        assert(self.0@.subrange(0, i as int) =~= self.0@);
        r
    }

    /// The children that are slots, in order.
    pub fn slot_children(&self) -> (r: Vec<&Element>)
        ensures
            r@.map_values(|e: &Element| *e) == slot_children(self.0@),
    {
        let mut r: Vec<&Element> = Vec::new();
        let mut i: usize = 0;
        while i < self.0.len()
            invariant
                i <= self.0@.len(),
                r@.map_values(|e: &Element| *e) == slot_children(self.0@.subrange(0, i as int)),
            decreases self.0.len() - i,
        {
            let ghost sub = self.0@.subrange(0, i + 1);
            assert(sub.drop_last() =~= self.0@.subrange(0, i as int));
            match &self.0[i] {
                Child::Node(_) => {},
                Child::Slot(_, e) => {
                    r.push(e);
                },
            }
            i = i + 1;
            assert(r@.map_values(|e: &Element| *e) =~= slot_children(sub));
        }
        assert(self.0@.subrange(0, i as int) =~= self.0@);
        r
    }

    /// The children, in order.
    pub fn into_vec(self) -> (v: Vec<Child>)
        ensures
            v@ == self.0@,
    {
        self.0
    }
}

} // verus!

