//! A concise view macro for leptos: the input of the macro is parsed into
//! children, elements, attributes and values, which are then expanded into
//! the builder calls of leptos.

use vstd::prelude::*;

pub mod span;
pub mod text;
pub mod ast;
pub mod lit;
pub mod error_ext;
pub mod expand;
pub mod parse;
pub mod token;

use crate::ast::children::{children_abort, children_abort_report, children_parsed, slot_children, Child, Children};
use crate::expand::expansion::{node_tokens, root_tokens};
use crate::expand::{node_child_to_tokens, root_children_tokens};
use crate::parse::{added, extends, report, reports, Diagnostic, Input, ParseError, Report};
use crate::expand::reported::{node_reports, nodes_reports};
use crate::span::Span;
use crate::token::{
    begins_with, empty_stream, grouped, push_group, push_ident, push_punct, push_stream,
    stream_view, Delimiter, Spacing, Tok, TokenTree,
};

verus! {

broadcast use vstd::std_specs::vec::group_vec_axioms;

/// `#[allow(unused_braces)]`, at the call site.
pub open spec fn allow_unused_braces() -> Seq<Tok> {
    let cs = Span::CallSite;
    seq![
        Tok::Punct('#', Spacing::Alone, cs),
        Tok::Group(
            Delimiter::Bracket,
            seq![
                Tok::Ident("allow"@, cs),
                Tok::Group(Delimiter::Parenthesis, seq![Tok::Ident("unused_braces"@, cs)], cs, cs),
            ],
            cs,
            cs,
        ),
    ]
}

/// `()`: what the macro expands to when it stops at an error, so that the
/// place where it is used still holds an expression.
pub open spec fn dummy_output() -> Seq<Tok> {
    grouped(Delimiter::Parenthesis, Seq::empty(), Span::CallSite)
}

/// `{ #[allow(unused_braces)] body }`, at the call site.
pub open spec fn braced_view(body: Seq<Tok>) -> Seq<Tok> {
    grouped(Delimiter::Brace, allow_unused_braces() + body, Span::CallSite)
}

/// The message of a slot at the root of the view.
pub open spec fn root_slot_message() -> Seq<char> {
    "slots should be inside a parent that supports slots"@
}

/// What expanding the children at the root of the view reports: nothing
/// where a slot stops the macro.
pub open spec fn view_reports(cs: Seq<Child>) -> Seq<Report> {
    if cs.len() == 1 {
        match cs[0] {
            Child::Slot(..) => Seq::empty(),
            Child::Node(n) => node_reports(n),
        }
    } else if slot_children(cs).len() > 0 {
        Seq::empty()
    } else {
        nodes_reports(cs)
    }
}

/// `{ #[allow(unused_braces)] body }`.
fn braced_block(body: Vec<TokenTree>) -> (t: Vec<TokenTree>)
    ensures
        stream_view(t@) == braced_view(stream_view(body@)),
{
    let cs = Span::CallSite;
    let mut inner: Vec<TokenTree> = empty_stream();
    push_punct(&mut inner, '#', Spacing::Alone, cs);
    let mut attr: Vec<TokenTree> = empty_stream();
    push_ident(&mut attr, "allow", cs);
    let mut lint: Vec<TokenTree> = empty_stream();
    push_ident(&mut lint, "unused_braces", cs);
    let ghost lv = stream_view(lint@);
    assert(lv =~= seq![Tok::Ident("unused_braces"@, cs)]);
    push_group(&mut attr, Delimiter::Parenthesis, lint, cs);
    let ghost av = stream_view(attr@);
    assert(av =~= seq![
        Tok::Ident("allow"@, cs),
        Tok::Group(Delimiter::Parenthesis, seq![Tok::Ident("unused_braces"@, cs)], cs, cs),
    ]);
    push_group(&mut inner, Delimiter::Bracket, attr, cs);
    let ghost a = stream_view(inner@);
    assert(a =~= allow_unused_braces());
    push_stream(&mut inner, body);
    let mut t: Vec<TokenTree> = empty_stream();
    push_group(&mut t, Delimiter::Brace, inner, cs);
    t
}

/// Expands the children at the root of the view.
///
/// One child that is a node expands to `{ #[allow(unused_braces)] node }`;
/// several children to `{ #[allow(unused_braces)]
/// ::leptos::prelude::View::new((a, b, )) }`. A slot there stops the macro:
/// at the `slot` keyword when it is the only child, else at the tag of the
/// first slot.
pub fn expand_root(children: Children, diags: &mut Vec<Diagnostic>) -> (r: Result<Vec<TokenTree>, Diagnostic>)
    ensures
        extends(old(diags)@, final(diags)@),
        reports(final(diags)@) == reports(old(diags)@) + view_reports(children.0@),
        children.0@.len() == 1 ==> match children.0@[0] {
            Child::Slot(sp, _) => r matches Err(d) && d.span == sp && d.message@ == root_slot_message() && d.help is None,
            Child::Node(n) => r matches Ok(t) && stream_view(t@) == braced_view(node_tokens(n)),
        },
        children.0@.len() != 1 && slot_children(children.0@).len() > 0 ==> (r matches Err(d)
            && d.span == slot_children(children.0@)[0].spec_tag().spec_span()
            && d.message@ == root_slot_message() && d.help is None),
        children.0@.len() != 1 && slot_children(children.0@).len() == 0 ==> (r matches Ok(t)
            && stream_view(t@) == braced_view(root_tokens(children.0@, Span::CallSite))),
{
    assert(reports(diags@) + Seq::<Report>::empty() =~= reports(diags@));
    if children.len() == 1 {
        let mut v = children.into_vec();
        let child = v.remove(0);
        match child {
            Child::Node(node) => {
                let mut body: Vec<TokenTree> = empty_stream();
                node_child_to_tokens(&node, &mut body, diags);
                Ok(braced_block(body))
            },
            Child::Slot(slot, _) => Err(Diagnostic::new(slot, "slots should be inside a parent that supports slots")),
        }
    } else {
        let slots = children.slot_children();
        if slots.len() > 0 {
            proof {
                assert(slots@.map_values(|e: &crate::ast::element::Element| *e)[0] == *slots@[0]);
            }
            return Err(Diagnostic::new(slots[0].tag().span(), "slots should be inside a parent that supports slots"));
        }
        proof {
            assert(slots@.map_values(|e: &crate::ast::element::Element| *e).len() == 0);
        }
        let mut body: Vec<TokenTree> = empty_stream();
        root_children_tokens(&children, Span::CallSite, &mut body, diags);
        Ok(braced_block(body))
    }
}

/// The input of the macro as a parse stream: errors at its end are
/// reported at the call site.
pub open spec fn root_input(toks: &Vec<TokenTree>) -> Input<'_> {
    Input { toks, end: Span::CallSite }
}

/// Whether `cs` are the children that the input parses into, and
/// `parsing` what parsing it reports; where nothing is reported, the
/// children are all the input.
pub open spec fn input_parsed(toks: &Vec<TokenTree>, cs: Seq<Child>, parsing: Seq<Report>) -> bool {
    children_parsed(root_input(toks), cs, parsing)
}

/// Whether `all` is what parsing the input into `cs` reports, then what
/// expanding `cs` reports.
pub open spec fn reported_by(toks: &Vec<TokenTree>, cs: Seq<Child>, all: Seq<Report>) -> bool {
    let n = all.len() - view_reports(cs).len();
    &&& 0 <= n
    &&& input_parsed(toks, cs, all.subrange(0, n))
    &&& all.subrange(n, all.len() as int) == view_reports(cs)
}

/// What the children at the root of the view expand to: `None` where a
/// slot stops the macro.
pub open spec fn view_of_children(cs: Seq<Child>) -> Option<Seq<Tok>> {
    if cs.len() == 1 {
        match cs[0] {
            Child::Slot(..) => None,
            Child::Node(n) => Some(braced_view(node_tokens(n))),
        }
    } else if slot_children(cs).len() > 0 {
        None
    } else {
        Some(braced_view(root_tokens(cs, Span::CallSite)))
    }
}

/// Where a slot at the root of the view is reported: at the `slot`
/// keyword when it is the only child, else at the tag of the first slot.
pub open spec fn root_slot_span(cs: Seq<Child>) -> Span {
    if cs.len() == 1 {
        cs[0]->Slot_0
    } else {
        slot_children(cs)[0].spec_tag().spec_span()
    }
}

/// What the macro produces: the tokens it expands to, the errors it reports
/// and goes on after, and the error it stopped at, if any.
pub struct MviewOutput {
    pub tokens: Vec<TokenTree>,
    pub diagnostics: Vec<Diagnostic>,
    pub abort: Option<Diagnostic>,
}

/// The view macro: parses the input into children and expands them.
///
/// The macro stops at an error where parsing does (a tag, directive or
/// closure arguments that do not parse, a literal child that is not a
/// string), or at a slot at the root of the view; it then expands to `()`,
/// so that the place where it is used still holds an expression. Otherwise
/// it expands to one block
/// `{ #[allow(unused_braces)] .. }`. What parsing reports and goes on after
/// comes first, then what expanding reports.
pub fn mview_impl(input: Vec<TokenTree>) -> (r: MviewOutput)
    ensures
        children_abort(root_input(&input), 0) ==> (r.abort matches Some(d) && d@ == children_abort_report(
            root_input(&input),
            0,
        )),
        !children_abort(root_input(&input), 0) ==> exists|cs: Seq<Child>| {
            &&& #[trigger] reported_by(&input, cs, reports(r.diagnostics@))
            &&& match view_of_children(cs) {
                Some(t) => r.abort is None && stream_view(r.tokens@) == t,
                None => r.abort matches Some(d) && d@ == report(root_slot_span(cs), root_slot_message()),
            }
        },
        r.abort is Some ==> stream_view(r.tokens@) == dummy_output(),
        r.abort is None ==> stream_view(r.tokens@).len() == 1,
        r.abort is None ==> (stream_view(r.tokens@)[0] matches Tok::Group(
            d,
            inner,
            sp,
            cl,
        ) && d == Delimiter::Brace && sp == Span::CallSite && cl == Span::CallSite && begins_with(
            inner,
            allow_unused_braces(),
        )),
{
    let inp = Input { toks: &input, end: Span::CallSite };
    let mut diags: Vec<Diagnostic> = Vec::new();
    let ghost mut cs: Seq<Child> = Seq::empty();
    let ghost mut parsing: Seq<Report> = Seq::empty();
    let ghost mut parsed: bool = false;
    let outcome = match Children::parse(&inp, &mut diags) {
        Ok(children) => {
            let ghost d1 = diags@;
            proof {
                parsed = true;
                cs = children.0@;
                parsing = reports(diags@);
                assert(reports(Seq::<Diagnostic>::empty()) =~= Seq::<Report>::empty());
                assert(added(Seq::<Diagnostic>::empty(), d1) =~= parsing);
                assert(input_parsed(&input, cs, parsing));
            }
            let res = expand_root(children, &mut diags);
            res
        },
        Err(ParseError::Abort(d)) => Err(d),
        Err(ParseError::Fail(d)) => Err(d),
    };
    match outcome {
        Ok(t) => {
            proof {
                let inner = stream_view(t@)[0]->Group_1;
                assert(inner.subrange(0, 2) =~= allow_unused_braces());
                assert(view_of_children(cs) == Some(stream_view(t@)));
                assert(input_parsed(&input, cs, parsing));
            }
            let out = MviewOutput { tokens: t, diagnostics: diags, abort: None };
            proof {
                assert(view_of_children(cs) == Some(stream_view(out.tokens@)));
                let all = reports(out.diagnostics@);
                assert(all == parsing + view_reports(cs));
                assert(all.subrange(0, parsing.len() as int) =~= parsing);
                assert(all.subrange(parsing.len() as int, all.len() as int) =~= view_reports(cs));
                assert(reported_by(&input, cs, all));
            }
            out
        },
        Err(d) => {
            let mut t: Vec<TokenTree> = empty_stream();
            push_group(&mut t, Delimiter::Parenthesis, empty_stream(), Span::CallSite);
            let out = MviewOutput { tokens: t, diagnostics: diags, abort: Some(d) };
            proof {
                if parsed {
                    assert(view_of_children(cs) is None);
                    assert(view_reports(cs) =~= Seq::<Report>::empty());
                    let all = reports(out.diagnostics@);
                    assert(all =~= parsing);
                    assert(all.subrange(0, all.len() as int) =~= parsing);
                    assert(input_parsed(&input, cs, parsing));
                    assert(all.subrange(all.len() as int, all.len() as int) =~= view_reports(cs));
                    assert(reported_by(&input, cs, all));
                    assert(d@ == report(root_slot_span(cs), root_slot_message()));
                }
            }
            out
        },
    }
}

} // verus!
