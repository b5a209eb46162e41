//! Expansion of the parsed view into the builder calls of leptos.

use vstd::prelude::*;

pub mod expansion;
pub mod reported;
pub mod subroutines;
pub mod utils;

use crate::ast::attribute::directive::Directive;
use crate::ast::attribute::selector::{SelectorShorthand, SelectorShorthands};
use crate::ast::attribute::{Attr, Attrs};
use crate::ast::children::{node_children, Child, Children, NodeChild};
use crate::ast::doctype::Doctype;
use crate::ast::element::Element;
use crate::ast::ident::{KebabIdent, KebabIdentOrStr};
use crate::ast::tag::{Tag, TagKind};
use crate::ast::value::Value;
use crate::expand::subroutines::{
    component_children_tokens, component_clone_tokens, component_kv_attribute_tokens,
    component_spread_tokens, directive_to_any_attr_path, xml_directive_tokens,
    xml_kv_attribute_tokens, xml_selectors_tokens, xml_spread_tokens,
};
use crate::expand::expansion::{
    add_to_groups, attr_paths, lemma_attr_parts_step, lemma_xml_attr_parts_step, lemma_paths_view_push, lemma_selector_parts_step, build_call, child_methods, children_fragment, class_paths,
    class_shorthand_path, clone_part, comma_between, comma_each, comma_nodes, component_kv_part,
    component_path_span, component_tokens, doctype_error, doctype_tokens, element_tokens,
    first_pound, group_index, groups_view, ids_joined, ids_path, node_tokens, nodes_concat,
    component_path, opt_stream, paths_view, root_tokens, selector_paths, slot_groups, slot_methods, xml_attr_part,
    xml_spread_part, xml_tag_path, xml_tokens,
};
use crate::expand::subroutines::{any_attr_path, any_attr_reports, dir_name, key_value_text, spec_attribute_kind, value_or_true, AttributeKind};
use crate::ast::ident::{key_ident, key_lit_text, quoted};
use crate::ast::ident::snake_text;
use crate::expand::utils::{emit_error_if_modifier, fn_generics_reports, turbofish_tokens, turbofishify, unraw, upper_camel_to_snake_chars};
use crate::parse::{extends, lemma_reports_push, report, reports, Diagnostic, Report};
use crate::expand::reported::{
    component_attr_reports, component_parts_reports, component_reports, doctype_reports, element_reports, lemma_attr_reports_step,
    node_reports, nodes_reports, slot_reports, xml_attr_reports, xml_reports,
};
use crate::span::{join, Span};
use crate::text::{chars_eq, chars_of, copy_chars, text_is};
use crate::token::{
    colon2, empty_stream, grouped, ident, leading_path, method_call, push_colon2, push_group,
    push_ident, push_method_call, push_path, push_punct, push_stream, push_tree, stream_view,
    strs_view, tree_view, Delimiter, Spacing, Tok, TokenTree,
};

verus! {

broadcast use crate::token::lemma_stream_view, lemma_reports_push, vstd::std_specs::vec::group_vec_axioms;

/// Appends the tag path of an HTML-like element.
fn push_xml_tag_path(tag: &Tag, out: &mut Vec<TokenTree>)
    requires
        !(tag is Component),
    ensures
        stream_view(final(out)@) == stream_view(old(out)@) + xml_tag_path(*tag)->0,
{
    let ghost s0 = stream_view(out@);
    match tag {
        Tag::Html(i) => {
            push_path(out, &["leptos", "tachys", "html", "element"], Span::CallSite);
            push_colon2(out, Span::CallSite);
            push_tree(out, i.deep_clone());
            push_group(out, Delimiter::Parenthesis, empty_stream(), Span::CallSite);
            proof {
                let segs = seq!["leptos", "tachys", "html", "element"];
                assert(strs_view(segs) =~= seq!["leptos"@, "tachys"@, "html"@, "element"@]);
            }
        },
        Tag::Svg(i) => {
            push_path(out, &["leptos", "tachys", "svg", "element"], Span::CallSite);
            push_colon2(out, Span::CallSite);
            push_tree(out, i.deep_clone());
            push_group(out, Delimiter::Parenthesis, empty_stream(), Span::CallSite);
            proof {
                let segs = seq!["leptos", "tachys", "svg", "element"];
                assert(strs_view(segs) =~= seq!["leptos"@, "tachys"@, "svg"@, "element"@]);
            }
        },
        Tag::Math(i) => {
            push_path(out, &["leptos", "tachys", "math", "element"], Span::CallSite);
            push_colon2(out, Span::CallSite);
            push_tree(out, i.deep_clone());
            push_group(out, Delimiter::Parenthesis, empty_stream(), Span::CallSite);
            proof {
                let segs = seq!["leptos", "tachys", "math", "element"];
                assert(strs_view(segs) =~= seq!["leptos"@, "tachys"@, "math"@, "element"@]);
            }
        },
        Tag::WebComponent(k) => {
            let lit = k.to_lit_str();
            let sp = k.span();
            push_path(out, &["leptos", "tachys", "html", "element"], Span::CallSite);
            push_colon2(out, Span::CallSite);
            push_ident(out, "custom", sp);
            let mut args: Vec<TokenTree> = empty_stream();
            push_tree(&mut args, lit);
            push_group(out, Delimiter::Parenthesis, args, Span::CallSite);
            proof {
                let segs = seq!["leptos", "tachys", "html", "element"];
                assert(strs_view(segs) =~= seq!["leptos"@, "tachys"@, "html"@, "element"@]);
            }
        },
        Tag::Component(..) => {},
    }
    assert(stream_view(out@) =~= s0 + xml_tag_path(*tag)->0);
}

/// Appends the expansion of a child that is a node of the view: a value as
/// it expands, an element's builder calls, or a doctype.
pub fn node_child_to_tokens(c: &NodeChild, out: &mut Vec<TokenTree>, diags: &mut Vec<Diagnostic>)
    ensures
        stream_view(final(out)@) == stream_view(old(out)@) + node_tokens(*c),
        extends(old(diags)@, final(diags)@),
        reports(final(diags)@) == reports(old(diags)@) + node_reports(*c),
    decreases c, 5nat,
{
    match c {
        NodeChild::Value(v) => v.to_tokens(out, diags),
        NodeChild::Element(e) => element_to_tokens(e, out, diags),
        NodeChild::Doctype(d) => doctype_to_tokens(d, out, diags),
    }
}

/// Appends the expansion of an element: the builder calls of an HTML-like
/// element, or the view of a component.
pub fn element_to_tokens(e: &Element, out: &mut Vec<TokenTree>, diags: &mut Vec<Diagnostic>)
    ensures
        stream_view(final(out)@) == stream_view(old(out)@) + element_tokens(*e),
        extends(old(diags)@, final(diags)@),
        reports(final(diags)@) == reports(old(diags)@) + element_reports(*e),
    decreases e, 4nat,
{
    if !xml_to_tokens(e, out, diags) {
        component_to_tokens(e, false, out, diags);
    }
}

/// Appends the builder calls of an HTML, SVG or MathML element or web
/// component: the function that makes it, then its attributes and
/// directives in the order written, its class and id shorthands, its
/// spreads, and a `.child(IntoRender::into_render(..))` call for each child
/// that is not a slot. Returns `false`, appending nothing, for a component.
#[verifier::spinoff_prover]
#[verifier::rlimit(40)]
pub fn xml_to_tokens(e: &Element, out: &mut Vec<TokenTree>, diags: &mut Vec<Diagnostic>) -> (r: bool)
    ensures
        r == !(e.tag is Component),
        !r ==> final(out)@ == old(out)@ && final(diags)@ == old(diags)@,
        stream_view(final(out)@) == stream_view(old(out)@) + xml_tokens(*e),
        extends(old(diags)@, final(diags)@),
        reports(final(diags)@) == reports(old(diags)@) + xml_reports(*e),
    decreases e, 3nat,
{
    let ghost r0 = reports(diags@);
    match &e.tag {
        Tag::Component(..) => {
            assert(r0 + Seq::<Report>::empty() =~= r0);
            return false;
        },
        _ => {},
    }
    let ghost s0 = stream_view(out@);
    let mut res: Vec<TokenTree> = empty_stream();
    push_xml_tag_path(&e.tag, &mut res);
    let kind = e.tag.kind();
    let mut attrs: Vec<TokenTree> = empty_stream();
    let mut spread_attrs: Vec<TokenTree> = empty_stream();
    xml_attrs_tokens(&e.attrs, kind, &mut attrs, &mut spread_attrs, diags);
    let mut selector_methods: Vec<TokenTree> = empty_stream();
    xml_selectors_tokens(&e.selectors, &mut selector_methods);
    let mut children: Vec<TokenTree> = empty_stream();
    match &e.children {
        Some(c) => {
            assert(decreases_to!(*e => *c));
            xml_child_methods_tokens(c, &mut children, diags);
        },
        None => {},
    }
    push_stream(&mut res, attrs);
    push_stream(&mut res, selector_methods);
    push_stream(&mut res, spread_attrs);
    push_stream(&mut res, children);
    push_stream(out, res);
    assert(reports(diags@) =~= r0 + xml_reports(*e));
    true
}

/// Appends the attributes of an HTML-like element: key-value attributes and
/// directives to `attrs`, spreads to `spreads`, each in the order written.
fn xml_attrs_tokens(
    list: &Attrs,
    kind: TagKind,
    attrs: &mut Vec<TokenTree>,
    spreads: &mut Vec<TokenTree>,
    diags: &mut Vec<Diagnostic>,
)
    ensures
        stream_view(final(attrs)@) == stream_view(old(attrs)@) + xml_attr_part(list.0@, kind),
        stream_view(final(spreads)@) == stream_view(old(spreads)@) + xml_spread_part(list.0@),
        extends(old(diags)@, final(diags)@),
        reports(final(diags)@) == reports(old(diags)@) + xml_attr_reports(list.0@),
{
    let ghost r0 = reports(diags@);
    let ghost a0 = stream_view(attrs@);
    let ghost p0 = stream_view(spreads@);
    let v = list.iter();
    let mut i: usize = 0;
    while i < v.len()
        invariant
            i <= v@.len(),
            v@ == list.0@,
            stream_view(attrs@) == a0 + xml_attr_part(v@.subrange(0, i as int), kind),
            stream_view(spreads@) == p0 + xml_spread_part(v@.subrange(0, i as int)),
            extends(old(diags)@, diags@),
            r0 == reports(old(diags)@),
            reports(diags@) == r0 + xml_attr_reports(v@.subrange(0, i as int)),
        decreases v.len() - i,
    {
        proof {
            lemma_xml_attr_parts_step(v@, i as int, kind);
            lemma_attr_reports_step(v@, i as int, false);
        }
        let ghost ri = reports(diags@);
        let ghost ai = stream_view(attrs@);
        match &v[i] {
            Attr::Kv(kv) => xml_kv_attribute_tokens(kv, kind, attrs, diags),
            Attr::Directive(d) => {
                if d.dir_is_ident() {
                    xml_directive_tokens(d, attrs, diags);
                } else {
                    assert(ai + Seq::<Tok>::empty() =~= ai);
                }
            },
            Attr::Spread(sp) => {
                assert(ai + Seq::<Tok>::empty() =~= ai);
                xml_spread_tokens(sp, spreads);
            },
        }
        assert(reports(diags@) =~= r0 + xml_attr_reports(v@.subrange(0, i + 1))) by {
            assert(ri + Seq::<Report>::empty() =~= ri);
        }
        i = i + 1;
    }
    proof {
        assert(v@.subrange(0, i as int) =~= v@);
    }
}

/// Appends a `.child(::leptos::prelude::IntoRender::into_render(..))` call
/// for each child that is not a slot, the method spanned at the child.
pub fn xml_child_methods_tokens(children: &Children, out: &mut Vec<TokenTree>, diags: &mut Vec<Diagnostic>)
    ensures
        stream_view(final(out)@) == stream_view(old(out)@) + child_methods(children.0@),
        extends(old(diags)@, final(diags)@),
        reports(final(diags)@) == reports(old(diags)@) + nodes_reports(children.0@),
    decreases children, 2nat,
{
    let ghost s0 = stream_view(out@);
    let ghost r0 = reports(diags@);
    let v = children.iter();
    let mut i: usize = 0;
    while i < v.len()
        invariant
            i <= v@.len(),
            v@ == children.0@,
            stream_view(out@) == s0 + child_methods(v@.subrange(0, i as int)),
            extends(old(diags)@, diags@),
            r0 == reports(old(diags)@),
            reports(diags@) == r0 + nodes_reports(v@.subrange(0, i as int)),
        decreases v.len() - i,
    {
        proof {
            assert(v@.subrange(0, i + 1).subrange(0, i as int) =~= v@.subrange(0, i as int));
        }
        match &v[i] {
            Child::Node(n) => {
                assert(decreases_to!(*children => *n)) by {
                    assert(decreases_to!(*children => children.0@[i as int]));
                };
                let mut node: Vec<TokenTree> = empty_stream();
                node_child_to_tokens(n, &mut node, diags);
                let mut inner: Vec<TokenTree> = empty_stream();
                push_path(&mut inner, &["leptos", "prelude", "IntoRender", "into_render"], Span::CallSite);
                push_group(&mut inner, Delimiter::Parenthesis, node, Span::CallSite);
                proof {
                    let segs = seq!["leptos", "prelude", "IntoRender", "into_render"];
                    assert(strs_view(segs) =~= seq!["leptos"@, "prelude"@, "IntoRender"@, "into_render"@]);
                }
                push_method_call(out, ident("child", n.span()), inner);
            },
            Child::Slot(..) => {},
        }
        assert(reports(diags@) =~= r0 + nodes_reports(v@.subrange(0, i + 1)));
        i = i + 1;
    }
    proof {
        assert(v@.subrange(0, i as int) =~= v@);
    }
}

/// The number of children that are nodes.
fn count_nodes(children: &Children) -> (n: usize)
    ensures
        n == node_children(children.0@).len(),
{
    let v = children.iter();
    let mut n: usize = 0;
    let mut i: usize = 0;
    while i < v.len()
        invariant
            i <= v@.len(),
            v@ == children.0@,
            n == node_children(v@.subrange(0, i as int)).len(),
            n <= i,
        decreases v.len() - i,
    {
        let ghost sub = v@.subrange(0, i + 1);
        assert(sub.drop_last() =~= v@.subrange(0, i as int));
        match &v[i] {
            Child::Node(_) => {
                n = n + 1;
            },
            Child::Slot(..) => {},
        }
        i = i + 1;
    }
    assert(v@.subrange(0, i as int) =~= v@);
    n
}

/// Appends the children that are not slots, each followed by `,` at `span`.
fn comma_separated_nodes(children: &Children, span: Span, out: &mut Vec<TokenTree>, diags: &mut Vec<Diagnostic>)
    ensures
        stream_view(final(out)@) == stream_view(old(out)@) + comma_nodes(children.0@, span),
        extends(old(diags)@, final(diags)@),
        reports(final(diags)@) == reports(old(diags)@) + nodes_reports(children.0@),
    decreases children, 0nat,
{
    let ghost s0 = stream_view(out@);
    let ghost r0 = reports(diags@);
    let v = children.iter();
    let mut i: usize = 0;
    while i < v.len()
        invariant
            i <= v@.len(),
            v@ == children.0@,
            stream_view(out@) == s0 + comma_nodes(v@.subrange(0, i as int), span),
            extends(old(diags)@, diags@),
            r0 == reports(old(diags)@),
            reports(diags@) == r0 + nodes_reports(v@.subrange(0, i as int)),
        decreases v.len() - i,
    {
        proof {
            assert(v@.subrange(0, i + 1).subrange(0, i as int) =~= v@.subrange(0, i as int));
        }
        match &v[i] {
            Child::Node(n) => {
                assert(decreases_to!(*children => *n)) by {
                    assert(decreases_to!(*children => children.0@[i as int]));
                };
                node_child_to_tokens(n, out, diags);
                push_punct(out, ',', Spacing::Alone, span);
            },
            Child::Slot(..) => {},
        }
        assert(reports(diags@) =~= r0 + nodes_reports(v@.subrange(0, i + 1)));
        i = i + 1;
    }
    proof {
        assert(v@.subrange(0, i as int) =~= v@);
    }
}

/// Appends the children that are not slots, one after the other.
fn concat_nodes(children: &Children, out: &mut Vec<TokenTree>, diags: &mut Vec<Diagnostic>)
    ensures
        stream_view(final(out)@) == stream_view(old(out)@) + nodes_concat(children.0@),
        extends(old(diags)@, final(diags)@),
        reports(final(diags)@) == reports(old(diags)@) + nodes_reports(children.0@),
    decreases children, 0nat,
{
    let ghost s0 = stream_view(out@);
    let ghost r0 = reports(diags@);
    let v = children.iter();
    let mut i: usize = 0;
    while i < v.len()
        invariant
            i <= v@.len(),
            v@ == children.0@,
            stream_view(out@) == s0 + nodes_concat(v@.subrange(0, i as int)),
            extends(old(diags)@, diags@),
            r0 == reports(old(diags)@),
            reports(diags@) == r0 + nodes_reports(v@.subrange(0, i as int)),
        decreases v.len() - i,
    {
        proof {
            assert(v@.subrange(0, i + 1).subrange(0, i as int) =~= v@.subrange(0, i as int));
        }
        match &v[i] {
            Child::Node(n) => {
                assert(decreases_to!(*children => *n)) by {
                    assert(decreases_to!(*children => children.0@[i as int]));
                };
                node_child_to_tokens(n, out, diags);
            },
            Child::Slot(..) => {},
        }
        assert(reports(diags@) =~= r0 + nodes_reports(v@.subrange(0, i + 1)));
        i = i + 1;
    }
    proof {
        assert(v@.subrange(0, i as int) =~= v@);
    }
}

/// Appends the children that are not slots as the view of a component's
/// children: in a tuple `(a, b, )` spanned at `span` if there are several,
/// else the one child as it is.
pub fn children_fragment_tokens(children: &Children, span: Span, out: &mut Vec<TokenTree>, diags: &mut Vec<Diagnostic>)
    ensures
        stream_view(final(out)@) == stream_view(old(out)@) + children_fragment(children.0@, span),
        extends(old(diags)@, final(diags)@),
        reports(final(diags)@) == reports(old(diags)@) + nodes_reports(children.0@),
    decreases children, 1nat,
{
    let n = count_nodes(children);
    if n > 1 {
        let mut inner: Vec<TokenTree> = empty_stream();
        comma_separated_nodes(children, span, &mut inner, diags);
        push_group(out, Delimiter::Parenthesis, inner, span);
    } else {
        concat_nodes(children, out, diags);
    }
}

/// Appends the children that are not slots as one view:
/// `::leptos::prelude::View::new((a, b, ))`, spanned at `span`.
pub fn root_children_tokens(children: &Children, span: Span, out: &mut Vec<TokenTree>, diags: &mut Vec<Diagnostic>)
    ensures
        stream_view(final(out)@) == stream_view(old(out)@) + root_tokens(children.0@, span),
        extends(old(diags)@, final(diags)@),
        reports(final(diags)@) == reports(old(diags)@) + nodes_reports(children.0@),
{
    let ghost s0 = stream_view(out@);
    let mut inner: Vec<TokenTree> = empty_stream();
    comma_separated_nodes(children, span, &mut inner, diags);
    let mut tuple: Vec<TokenTree> = empty_stream();
    push_group(&mut tuple, Delimiter::Parenthesis, inner, span);
    push_path(out, &["leptos", "prelude", "View", "new"], span);
    push_group(out, Delimiter::Parenthesis, tuple, span);
    proof {
        let segs = seq!["leptos", "prelude", "View", "new"];
        assert(strs_view(segs) =~= seq!["leptos"@, "prelude"@, "View"@, "new"@]);
    }
}

/// The span of a component's path: from its name to the end of its
/// generics.
fn path_span(name: &TokenTree, generics: Option<&Vec<TokenTree>>) -> (s: Span)
    ensures
        s == component_path_span(*name, match generics {
            Some(g) => Some(*g),
            None => None,
        }),
{
    match generics {
        Some(g) => if g.len() > 0 {
            join(name.span(), g[g.len() - 1].span())
        } else {
            name.span()
        },
        None => name.span(),
    }
}

/// The path of a component as written: its name, then its generics.
/// The path of a component made to use the turbofish, `Comp::<T>`;
/// parenthesized arguments in it are reported and passed through.
fn component_path_turbofish(name: &TokenTree, generics: Option<&Vec<TokenTree>>, diags: &mut Vec<Diagnostic>) -> (r: Vec<TokenTree>)
    ensures
        stream_view(r@) == turbofish_tokens(component_path(*name, match generics {
            Some(g) => Some(*g),
            None => None,
        })),
        extends(old(diags)@, final(diags)@),
        reports(final(diags)@) == reports(old(diags)@) + fn_generics_reports(component_path(*name, match generics {
            Some(g) => Some(*g),
            None => None,
        })),
{
    let raw = component_path_tokens(name, generics);
    let ghost r0 = reports(diags@);
    match turbofishify(&raw) {
        Ok(p) => {
            assert(r0 + Seq::<Report>::empty() =~= r0);
            p
        },
        Err(d) => {
            diags.push(d);
            proof {
                lemma_reports_push(old(diags)@, d);
            }
            crate::expand::utils::add_turbofish(&raw)
        },
    }
}

fn component_path_tokens(name: &TokenTree, generics: Option<&Vec<TokenTree>>) -> (r: Vec<TokenTree>)
    ensures
        stream_view(r@) == component_path(*name, match generics {
            Some(g) => Some(*g),
            None => None,
        }),
{
    let mut r: Vec<TokenTree> = empty_stream();
    push_tree(&mut r, name.deep_clone());
    match generics {
        Some(g) => push_stream(&mut r, crate::token::clone_stream(g)),
        None => {},
    }
    r
}

/// Appends `class:name` as it is added to a component:
/// `::leptos::tachys::html::class::class(("name", true))`.
fn push_class_shorthand_path(dot: Span, class: &KebabIdent, out: &mut Vec<TokenTree>, diags: &mut Vec<Diagnostic>)
    ensures
        stream_view(final(out)@) == stream_view(old(out)@) + class_shorthand_path(dot, *class),
        final(diags)@ == old(diags)@,
{
    let d = Directive {
        dir: ident("class", dot),
        key: KebabIdentOrStr::KebabIdent(class.clone_ident()),
        modifier: None,
        value: None,
    };
    directive_to_any_attr_path(&d, out, diags);
    proof {
        let cs = Span::CallSite;
        assert(dir_name(d) == "class"@);
        assert(tree_view(d.dir) == Tok::Ident("class"@, dot));
        assert(key_lit_text(d.key) == quoted(class.repr_view()));
        assert(value_or_true(d.value) == seq![Tok::Ident("true"@, cs)]);
        let inner = seq![Tok::Literal(key_lit_text(d.key), cs)] + seq![Tok::Punct(',', Spacing::Alone, cs)] + value_or_true(d.value);
        assert(inner =~= seq![
            Tok::Literal(quoted(class.repr_view()), cs),
            Tok::Punct(',', Spacing::Alone, cs),
            Tok::Ident("true"@, cs),
        ]);
        assert(any_attr_path(d)->0 == class_shorthand_path(dot, *class));
        assert(any_attr_reports(d) =~= Seq::<Report>::empty());
        assert(diags@ =~= old(diags)@);
    }
}

/// Appends the id shorthands as they are added to a component, `id`
/// spanned at the first `#`: `::leptos::tachys::html::attribute::id("a b")`.
fn push_ids_path(pound: Span, joined: &Vec<char>, out: &mut Vec<TokenTree>, diags: &mut Vec<Diagnostic>)
    ensures
        stream_view(final(out)@) == stream_view(old(out)@) + ids_path(pound, joined@),
        final(diags)@ == old(diags)@,
{
    proof {
        reveal_strlit("id");
        assert(!crate::ast::ident::is_whitespace('i') && !crate::ast::ident::is_whitespace('d'));
        assert(crate::ast::ident::is_word("id"@));
    }
    let d = Directive {
        dir: ident("attr", Span::CallSite),
        key: KebabIdentOrStr::KebabIdent(KebabIdent::from_ident(&chars_of("id"), pound)),
        modifier: None,
        value: Some(Value::Lit(TokenTree::Literal { text: crate::ast::ident::quote_chars(joined), span: Span::CallSite })),
    };
    directive_to_any_attr_path(&d, out, diags);
    proof {
        let cs = Span::CallSite;
        reveal_strlit("id");
        reveal_strlit("attr");
        reveal_strlit("class");
        reveal_strlit("style");
        reveal_strlit("aria-");
        let k = d.key->KebabIdent_0;
        assert(k.repr_view() == "id"@);
        assert(k.spec_span() == pound);
        assert(dir_name(d) == "attr"@);
        assert(key_value_text(d.key) == "id"@);
        assert forall|j: int| 0 <= j < "id"@.len() implies "id"@[j] != '-' by {}
        assert(!"id"@.contains('-'));
        assert(spec_attribute_kind("id"@) == AttributeKind::OtherChecked);
        assert(snake_text("id"@) =~= "id"@);
        assert(key_ident(d.key) == Tok::Ident("id"@, pound));
        assert(value_or_true(d.value) == seq![Tok::Literal(quoted(joined@), cs)]);
        let expected = crate::expand::subroutines::html_path(seq!["attribute"@]) + crate::token::colon2(cs)
            + seq![key_ident(d.key)] + grouped(Delimiter::Parenthesis, value_or_true(d.value), cs);
        assert("attr"@.len() == 4);
        assert("class"@.len() == 5);
        assert("style"@.len() == 5);
        assert(dir_name(d) != "class"@);
        assert(dir_name(d) != "style"@);
        let kind = spec_attribute_kind(key_value_text(d.key));
        assert(!(kind == AttributeKind::Class || kind == AttributeKind::Style));
        assert(kind != AttributeKind::Custom);
        assert(any_attr_path(d) == Some(expected));
        assert(expected =~= ids_path(pound, joined@));
        assert(any_attr_reports(d) =~= Seq::<Report>::empty());
        assert(diags@ =~= old(diags)@);
    }
}

/// The class and id shorthands of a component, as what they are added as
/// in `.add_any_attr(..)`: each class as `class:name`, then all the ids as
/// one `attr:id="a b"`.
fn component_selector_paths(sels: &SelectorShorthands, diags: &mut Vec<Diagnostic>) -> (paths: Vec<Vec<TokenTree>>)
    ensures
        paths_view(paths@) == selector_paths(sels.0@),
        final(diags)@ == old(diags)@,
{
    let mut paths: Vec<Vec<TokenTree>> = Vec::new();
    let v = sels.iter();
    let mut ids: Vec<char> = Vec::new();
    let mut first: Option<Span> = None;
    let mut i: usize = 0;
    while i < v.len()
        invariant
            i <= v@.len(),
            v@ == sels.0@,
            paths_view(paths@) == class_paths(v@.subrange(0, i as int)),
            first == first_pound(v@.subrange(0, i as int)),
            ids@ == ids_joined(v@.subrange(0, i as int)),
            first is None ==> ids@.len() == 0,
            diags@ == old(diags)@,
        decreases v.len() - i,
    {
        proof {
            lemma_selector_parts_step(v@, i as int);
        }
        match &v[i] {
            SelectorShorthand::Id { id, pound_symbol } => {
                if first.is_none() {
                    first = Some(*pound_symbol);
                } else {
                    ids.push(' ');
                }
                let mut r = copy_chars(id.repr_chars());
                ids.append(&mut r);
            },
            SelectorShorthand::Class { dot_symbol, class } => {
                let mut p: Vec<TokenTree> = empty_stream();
                push_class_shorthand_path(*dot_symbol, class, &mut p, diags);
                proof {
                    lemma_paths_view_push(paths@, p);
                }
                paths.push(p);
            },
        }
        i = i + 1;
    }
    proof {
        assert(v@.subrange(0, i as int) =~= v@);
    }
    if let Some(pound) = first {
        let mut p: Vec<TokenTree> = empty_stream();
        push_ids_path(pound, &ids, &mut p, diags);
        proof {
            lemma_paths_view_push(paths@, p);
        }
        paths.push(p);
    }
    paths
}

/// Takes in the attributes of a component: key-value attributes to
/// `attrs`, the clones of `clone:` to `clones`, and, but for a slot, spreads
/// and known directives to `paths`. What a component does not support is
/// reported: on a slot, spreads and directives other than `clone:`;
/// elsewhere, unknown directives.
fn component_attrs(
    list: &Attrs,
    is_slot: bool,
    attrs: &mut Vec<TokenTree>,
    clones: &mut Vec<TokenTree>,
    paths: &mut Vec<Vec<TokenTree>>,
    diags: &mut Vec<Diagnostic>,
)
    ensures
        stream_view(final(attrs)@) == stream_view(old(attrs)@) + component_kv_part(list.0@),
        stream_view(final(clones)@) == stream_view(old(clones)@) + clone_part(list.0@),
        !is_slot ==> paths_view(final(paths)@) == paths_view(old(paths)@) + attr_paths(list.0@),
        is_slot ==> final(paths)@ == old(paths)@,
        extends(old(diags)@, final(diags)@),
        reports(final(diags)@) == reports(old(diags)@) + component_attr_reports(list.0@, is_slot),
{
    let ghost r0 = reports(diags@);
    let ghost a0 = stream_view(attrs@);
    let ghost c0 = stream_view(clones@);
    let ghost p0 = paths_view(paths@);
    let v = list.iter();
    let mut i: usize = 0;
    while i < v.len()
        invariant
            i <= v@.len(),
            v@ == list.0@,
            stream_view(attrs@) == a0 + component_kv_part(v@.subrange(0, i as int)),
            stream_view(clones@) == c0 + clone_part(v@.subrange(0, i as int)),
            !is_slot ==> paths_view(paths@) == p0 + attr_paths(v@.subrange(0, i as int)),
            is_slot ==> paths@ == old(paths)@,
            p0 == paths_view(old(paths)@),
            extends(old(diags)@, diags@),
            r0 == reports(old(diags)@),
            reports(diags@) == r0 + component_attr_reports(v@.subrange(0, i as int), is_slot),
        decreases v.len() - i,
    {
        proof {
            lemma_attr_parts_step(v@, i as int);
            lemma_attr_reports_step(v@, i as int, is_slot);
        }
        let ghost ri = reports(diags@);
        match &v[i] {
            Attr::Kv(kv) => component_kv_attribute_tokens(kv, attrs, diags),
            Attr::Spread(s) => {
                if is_slot {
                    diags.push(Diagnostic::new(s.span(), "spread syntax is not supported on slots"));
                } else {
                    let p = component_spread_tokens(s);
                    proof {
                        lemma_paths_view_push(paths@, p);
                    }
                    paths.push(p);
                }
            },
            Attr::Directive(d) => {
                let is_clone = match &d.dir {
                    TokenTree::Ident { text, .. } => text_is(text, "clone"),
                    _ => false,
                };
                if is_clone {
                    emit_error_if_modifier(d.modifier.as_ref(), diags);
                    component_clone_tokens(d, clones, diags);
                } else if is_slot {
                    let mut msg = chars_of("`");
                    let mut name_text = match &d.dir {
                        TokenTree::Ident { text, .. } => copy_chars(text),
                        _ => Vec::new(),
                    };
                    msg.append(&mut name_text);
                    let mut tail = chars_of(":` is not supported on slots");
                    msg.append(&mut tail);
                    diags.push(Diagnostic { span: d.dir.span(), message: msg, help: None });
                } else if d.dir_is_ident() {
                    let mut p: Vec<TokenTree> = empty_stream();
                    if directive_to_any_attr_path(d, &mut p, diags) {
                        proof {
                            lemma_paths_view_push(paths@, p);
                        }
                        paths.push(p);
                    } else {
                        diags.push(Diagnostic::new(d.dir.span(), "unknown directive"));
                    }
                } else {
                    diags.push(Diagnostic::new(d.dir.span(), "unknown directive"));
                }
            },
        }
        assert(reports(diags@) =~= r0 + component_attr_reports(v@.subrange(0, i + 1), is_slot)) by {
            assert(ri + Seq::<Report>::empty() =~= ri);
        }
        i = i + 1;
    }
    proof {
        assert(v@.subrange(0, i as int) =~= v@);
    }
}

/// Appends `.add_any_attr((a, b, ))` with the given attributes, if there
/// are any.
fn push_any_attrs(paths: &Vec<Vec<TokenTree>>, out: &mut Vec<TokenTree>)
    ensures
        stream_view(final(out)@) == stream_view(old(out)@) + if paths@.len() > 0 {
            method_call(
                Tok::Ident("add_any_attr"@, Span::CallSite),
                grouped(Delimiter::Parenthesis, comma_each(paths_view(paths@)), Span::CallSite),
            )
        } else {
            Seq::empty()
        },
{
    if paths.len() > 0 {
        let ghost pv = paths_view(paths@);
        let mut tuple: Vec<TokenTree> = empty_stream();
        let mut j: usize = 0;
        while j < paths.len()
            invariant
                j <= paths@.len(),
                pv == paths_view(paths@),
                stream_view(tuple@) == comma_each(pv.subrange(0, j as int)),
            decreases paths.len() - j,
        {
            proof {
                assert(pv.subrange(0, j + 1).drop_last() =~= pv.subrange(0, j as int));
            }
            push_stream(&mut tuple, crate::token::clone_stream(&paths[j]));
            push_punct(&mut tuple, ',', Spacing::Alone, Span::CallSite);
            j = j + 1;
        }
        proof {
            assert(pv.subrange(0, j as int) =~= pv);
        }
        let mut arg: Vec<TokenTree> = empty_stream();
        push_group(&mut arg, Delimiter::Parenthesis, tuple, Span::CallSite);
        push_method_call(out, ident("add_any_attr", Span::CallSite), arg);
    }
}

/// Appends the view of a leptos component (or, with `is_slot`, of a slot)
/// and returns `true`; returns `false`, appending nothing, for any other tag.
///
/// A component expands to
/// `::leptos::component::component_view(&Comp, ::leptos::component::component_props_builder(&Comp) .attr(..) .children(..) .slot(..) .build())`,
/// then `.add_any_attr((..))` with its class and id shorthands, spreads and
/// directives, if there are any. A slot expands to
/// `::std::convert::Into::into(Slot::builder() .attr(..) .children(..) .build())`;
/// shorthands, spreads and directives other than `clone:` are reported on
/// slots.
#[verifier::spinoff_prover]
#[verifier::rlimit(40)]
pub fn component_to_tokens(e: &Element, is_slot: bool, out: &mut Vec<TokenTree>, diags: &mut Vec<Diagnostic>) -> (r: bool)
    ensures
        r == (e.tag is Component),
        !r ==> final(out)@ == old(out)@ && final(diags)@ == old(diags)@,
        stream_view(final(out)@) == stream_view(old(out)@) + component_tokens(*e, is_slot),
        extends(old(diags)@, final(diags)@),
        reports(final(diags)@) == reports(old(diags)@) + component_reports(*e, is_slot),
    decreases e, 3nat,
{
    let ghost r0 = reports(diags@);
    assert(r0 + Seq::<Report>::empty() =~= r0);
    let (name, generics) = match &e.tag {
        Tag::Component(name, generics) => (name, generics.as_ref()),
        _ => {
            return false;
        },
    };
    let ghost s0 = stream_view(out@);
    let pspan = path_span(name, generics);
    let path = component_path_turbofish(name, generics, diags);
    let ghost r_path = reports(diags@);
    let mut attrs: Vec<TokenTree> = empty_stream();
    let mut clones: Vec<TokenTree> = empty_stream();
    let mut directive_paths: Vec<Vec<TokenTree>> = Vec::new();
    if is_slot {
        let sels = e.selectors.iter();
        if sels.len() > 0 {
            diags.push(Diagnostic::new(sels[0].prefix_symbol_span(), "selector shorthands are not supported on slots"));
        }
    } else {
        directive_paths = component_selector_paths(&e.selectors, diags);
    }
    let ghost r1 = reports(diags@);
    assert(r1 == r_path + (if is_slot && e.selectors.0@.len() > 0 {
        seq![report(e.selectors.0@[0].prefix_span(), "selector shorthands are not supported on slots"@)]
    } else {
        Seq::<Report>::empty()
    }));
    component_attrs(&e.attrs, is_slot, &mut attrs, &mut clones, &mut directive_paths, diags);
    let mut children: Vec<TokenTree> = empty_stream();
    let mut slot_children: Vec<TokenTree> = empty_stream();
    match &e.children {
        Some(c) => {
            assert(decreases_to!(*e => *c));
            let args = match &e.children_args {
                Some(a) => Some(a),
                None => None,
            };
            if count_nodes(c) > 0 {
                component_children_tokens(c, args, &clones, &mut children, diags);
            }
            slots_to_tokens(c, &mut slot_children, diags);
        },
        None => {},
    }
    let mut build: Vec<TokenTree> = empty_stream();
    push_punct(&mut build, '.', Spacing::Alone, pspan);
    push_ident(&mut build, "build", pspan);
    push_group(&mut build, Delimiter::Parenthesis, empty_stream(), pspan);
    proof {
        assert(stream_view(build@) =~= build_call(pspan));
    }
    if is_slot {
        let mut inner: Vec<TokenTree> = empty_stream();
        push_stream(&mut inner, path);
        push_colon2(&mut inner, Span::CallSite);
        push_ident(&mut inner, "builder", Span::CallSite);
        push_group(&mut inner, Delimiter::Parenthesis, empty_stream(), Span::CallSite);
        push_stream(&mut inner, attrs);
        push_stream(&mut inner, children);
        push_stream(&mut inner, build);
        push_path(out, &["std", "convert", "Into", "into"], Span::CallSite);
        push_group(out, Delimiter::Parenthesis, inner, Span::CallSite);
        proof {
            let segs = seq!["std", "convert", "Into", "into"];
            assert(strs_view(segs) =~= seq!["std"@, "convert"@, "Into"@, "into"@]);
        }
    } else {
        let mut inner: Vec<TokenTree> = empty_stream();
        push_punct(&mut inner, '&', Spacing::Alone, Span::CallSite);
        push_stream(&mut inner, crate::token::clone_stream(&path));
        push_punct(&mut inner, ',', Spacing::Alone, Span::CallSite);
        push_path(&mut inner, &["leptos", "component", "component_props_builder"], pspan);
        let mut builder_arg: Vec<TokenTree> = empty_stream();
        push_punct(&mut builder_arg, '&', Spacing::Alone, pspan);
        push_stream(&mut builder_arg, path);
        push_group(&mut inner, Delimiter::Parenthesis, builder_arg, pspan);
        push_stream(&mut inner, attrs);
        push_stream(&mut inner, children);
        push_stream(&mut inner, slot_children);
        push_stream(&mut inner, build);
        push_path(out, &["leptos", "component", "component_view"], Span::CallSite);
        push_group(out, Delimiter::Parenthesis, inner, Span::CallSite);
        proof {
            let segs = seq!["leptos", "component", "component_props_builder"];
            assert(strs_view(segs) =~= seq!["leptos"@, "component"@, "component_props_builder"@]);
            let segs2 = seq!["leptos", "component", "component_view"];
            assert(strs_view(segs2) =~= seq!["leptos"@, "component"@, "component_view"@]);
        }
        push_any_attrs(&directive_paths, out);
    }
    assert(reports(diags@) =~= r_path + component_parts_reports(*e, is_slot));
    true
}

/// Appends, for each slot name, a method of the component's builder that
/// takes the slots of that name: `.name(slot)` for one slot, or
/// `.name(<[_]>::into_vec(::std::boxed::Box::new([a, b])))` for several.
/// The method is the slot's name in snake_case, a raw identifier, spanned at
/// the first slot of the name. Names are taken in the order they first
/// appear, the slots of a name in the order written.
///
/// A slot whose tag is no component, or that has generics, is reported and
/// left out.
pub fn slots_to_tokens(children: &Children, out: &mut Vec<TokenTree>, diags: &mut Vec<Diagnostic>)
    ensures
        stream_view(final(out)@) == stream_view(old(out)@) + slot_methods(slot_groups(children.0@)),
        extends(old(diags)@, final(diags)@),
        reports(final(diags)@) == reports(old(diags)@) + slot_reports(children.0@),
    decreases children, 2nat,
{
    let ghost s0 = stream_view(out@);
    let ghost r0 = reports(diags@);
    let mut groups: Vec<(Vec<char>, Span, Vec<Vec<TokenTree>>)> = Vec::new();
    let v = children.iter();
    let mut i: usize = 0;
    while i < v.len()
        invariant
            i <= v@.len(),
            v@ == children.0@,
            groups_view(groups@) == slot_groups(v@.subrange(0, i as int)),
            extends(old(diags)@, diags@),
            r0 == reports(old(diags)@),
            reports(diags@) == r0 + slot_reports(v@.subrange(0, i as int)),
        decreases v.len() - i,
    {
        let ghost prefix = v@.subrange(0, i + 1);
        proof {
            assert(prefix.subrange(0, i as int) =~= v@.subrange(0, i as int));
        }
        match &v[i] {
            Child::Slot(_, el) => {
                assert(decreases_to!(*children => *el)) by {
                    assert(decreases_to!(*children => children.0@[i as int]));
                };
                match &el.tag {
                    Tag::Component(name, generics) => {
                        if generics.is_some() {
                            diags.push(Diagnostic::new(
                                path_span(name, generics.as_ref()),
                                "slot name must be a single ident, not a path",
                            ));
                        } else {
                            let mut tokens: Vec<TokenTree> = empty_stream();
                            component_to_tokens(el, true, &mut tokens, diags);
                            let text = match name {
                                TokenTree::Ident { text, .. } => copy_chars(text),
                                _ => Vec::new(),
                            };
                            add_to_group(&mut groups, text, name.span(), tokens);
                        }
                    },
                    _ => {
                        diags.push(Diagnostic::new(el.tag.span(), "called `slots_to_tokens` on non-slot element"));
                    },
                }
            },
            Child::Node(_) => {},
        }
        assert(reports(diags@) =~= r0 + slot_reports(v@.subrange(0, i + 1)));
        i = i + 1;
    }
    proof {
        assert(v@.subrange(0, i as int) =~= v@);
    }
    let ghost gv = groups_view(groups@);
    let mut g: usize = 0;
    while g < groups.len()
        invariant
            g <= groups@.len(),
            gv == groups_view(groups@),
            stream_view(out@) == s0 + slot_methods(gv.subrange(0, g as int)),
        decreases groups.len() - g,
    {
        proof {
            assert(gv.subrange(0, g + 1).drop_last() =~= gv.subrange(0, g as int));
        }
        let (name, span, slots) = &groups[g];
        let base = unraw(name);
        let snake = upper_camel_to_snake_chars(&base);
        let mut raw = chars_of("r#");
        let mut snake = snake;
        raw.append(&mut snake);
        let method = TokenTree::Ident { text: raw, span: *span };
        let ghost sv = paths_view(slots@);
        let mut args: Vec<TokenTree> = empty_stream();
        if slots.len() == 1 {
            push_stream(&mut args, crate::token::clone_stream(&slots[0]));
        } else {
            let mut list: Vec<TokenTree> = empty_stream();
            let mut j: usize = 0;
            while j < slots.len()
                invariant
                    j <= slots@.len(),
                    sv == paths_view(slots@),
                    stream_view(list@) == comma_between(sv.subrange(0, j as int)),
                decreases slots.len() - j,
            {
                proof {
                    assert(sv.subrange(0, j + 1).drop_last() =~= sv.subrange(0, j as int));
                    if j == 0 {
                        assert(sv.subrange(0, 1)[0] == sv[0]);
                    }
                }
                if j > 0 {
                    push_punct(&mut list, ',', Spacing::Alone, Span::CallSite);
                }
                push_stream(&mut list, crate::token::clone_stream(&slots[j]));
                j = j + 1;
            }
            proof {
                assert(sv.subrange(0, j as int) =~= sv);
            }
            push_punct(&mut args, '<', Spacing::Alone, Span::CallSite);
            let mut under: Vec<TokenTree> = empty_stream();
            push_ident(&mut under, "_", Span::CallSite);
            push_group(&mut args, Delimiter::Bracket, under, Span::CallSite);
            push_punct(&mut args, '>', Spacing::Alone, Span::CallSite);
            push_colon2(&mut args, Span::CallSite);
            push_ident(&mut args, "into_vec", Span::CallSite);
            let mut boxed: Vec<TokenTree> = empty_stream();
            push_path(&mut boxed, &["std", "boxed", "Box", "new"], Span::CallSite);
            let mut arr: Vec<TokenTree> = empty_stream();
            push_group(&mut arr, Delimiter::Bracket, list, Span::CallSite);
            push_group(&mut boxed, Delimiter::Parenthesis, arr, Span::CallSite);
            push_group(&mut args, Delimiter::Parenthesis, boxed, Span::CallSite);
            proof {
                let segs = seq!["std", "boxed", "Box", "new"];
                assert(strs_view(segs) =~= seq!["std"@, "boxed"@, "Box"@, "new"@]);
            }
        }
        push_method_call(out, method, args);
        g = g + 1;
    }
    proof {
        assert(gv.subrange(0, g as int) =~= gv);
    }
}

/// The first group that has a name, if any: a loop looks for it from the
/// start.
pub proof fn lemma_group_index(groups: Seq<(Seq<char>, Span, Seq<Seq<Tok>>)>, name: Seq<char>, k: int)
    requires
        0 <= k <= groups.len(),
        forall|j: int| 0 <= j < k ==> groups[j].0 != name,
        k < groups.len() ==> groups[k].0 == name,
    ensures
        group_index(groups, name) == (if k < groups.len() { Some(k) } else { None::<int> }),
    decreases groups.len(),
{
    if groups.len() > 0 {
        if k == groups.len() {
            lemma_group_index(groups.drop_last(), name, k - 1);
        } else if k == groups.len() - 1 {
            lemma_group_index(groups.drop_last(), name, k);
        } else {
            lemma_group_index(groups.drop_last(), name, k);
        }
    }
}

pub proof fn lemma_groups_view_update(
    g: Seq<(Vec<char>, Span, Vec<Vec<TokenTree>>)>,
    i: int,
    entry: (Vec<char>, Span, Vec<Vec<TokenTree>>),
    t: Seq<Tok>,
)
    requires
        0 <= i < g.len(),
        entry.0@ == g[i].0@,
        entry.1 == g[i].1,
        paths_view(entry.2@) == paths_view(g[i].2@).push(t),
    ensures
        groups_view(g.update(i, entry)) == groups_view(g).update(i, (groups_view(g)[i].0, groups_view(g)[i].1, groups_view(g)[i].2.push(t))),
{
    let a = groups_view(g.update(i, entry));
    let b = groups_view(g).update(i, (groups_view(g)[i].0, groups_view(g)[i].1, groups_view(g)[i].2.push(t)));
    assert forall|j: int| 0 <= j < a.len() implies a[j] == b[j] by {
        if j == i {
            assert(a[j] == (entry.0@, entry.1, paths_view(entry.2@)));
        }
    }
    assert(a =~= b);
}

pub proof fn lemma_groups_view_push(g: Seq<(Vec<char>, Span, Vec<Vec<TokenTree>>)>, entry: (Vec<char>, Span, Vec<Vec<TokenTree>>))
    ensures
        groups_view(g.push(entry)) == groups_view(g).push((entry.0@, entry.1, paths_view(entry.2@))),
{
    assert(groups_view(g.push(entry)) =~= groups_view(g).push((entry.0@, entry.1, paths_view(entry.2@))));
}

/// Adds a slot's expansion to the group of its name, or starts a group for
/// the name, spanned at `span`, after the others.
pub fn add_to_group(
    groups: &mut Vec<(Vec<char>, Span, Vec<Vec<TokenTree>>)>,
    name: Vec<char>,
    span: Span,
    tokens: Vec<TokenTree>,
)
    ensures
        groups_view(final(groups)@) == add_to_groups(groups_view(old(groups)@), name@, span, stream_view(tokens@)),
{
    let ghost gv = groups_view(groups@);
    let mut i: usize = 0;
    while i < groups.len()
        invariant
            i <= groups@.len(),
            groups@ == old(groups)@,
            gv == groups_view(old(groups)@),
            forall|j: int| 0 <= j < i ==> gv[j].0 != name@,
        decreases groups.len() - i,
    {
        let same = chars_eq(&groups[i].0, &name);
        if same {
            proof {
                lemma_group_index(gv, name@, i as int);
            }
            let ghost before = groups@;
            let mut entry = groups.remove(i);
            let ghost tv = stream_view(tokens@);
            proof {
                lemma_paths_view_push(entry.2@, tokens);
            }
            entry.2.push(tokens);
            groups.insert(i, entry);
            proof {
                assert(groups@ =~= before.update(i as int, entry));
                lemma_groups_view_update(before, i as int, entry, tv);
            }
            return;
        }
        i = i + 1;
    }
    proof {
        lemma_group_index(gv, name@, gv.len() as int);
    }
    let ghost before = groups@;
    let ghost tv = stream_view(tokens@);
    let entry = (name, span, vec![tokens]);
    proof {
        assert(paths_view(entry.2@) =~= seq![tv]);
        lemma_groups_view_push(before, entry);
    }
    groups.push(entry);
}

/// Appends the doctype: a block that makes `DOCTYPE` and `html` complete as
/// names, and calls `::leptos::tachys::html::doctype("html")`. What is
/// missing of `!DOCTYPE html;` is reported, the first missing part only.
#[verifier::spinoff_prover]
#[verifier::rlimit(40)]
pub fn doctype_to_tokens(d: &Doctype, out: &mut Vec<TokenTree>, diags: &mut Vec<Diagnostic>)
    ensures
        stream_view(final(out)@) == stream_view(old(out)@) + doctype_tokens(*d),
        doctype_error(*d) is None ==> final(diags)@ == old(diags)@,
        doctype_error(*d) matches Some((sp, m)) ==> {
            &&& final(diags)@.len() == old(diags)@.len() + 1
            &&& extends(old(diags)@, final(diags)@)
            &&& final(diags)@.last().span == sp
            &&& final(diags)@.last().message@ == m
            &&& final(diags)@.last().help matches Some(h) && h@ == "Add `!DOCTYPE html;`"@
        },
        reports(final(diags)@) == reports(old(diags)@) + doctype_reports(*d),
{
    let ghost r0 = reports(diags@);
    assert(r0 + Seq::<Report>::empty() =~= r0);
    let doctype_span = match &d.doctype {
        Some(t) => t.span(),
        None => d.bang,
    };
    let html_span = match &d.html {
        Some(t) => t.span(),
        None => doctype_span,
    };
    let doctype_ok = match &d.doctype {
        Some(TokenTree::Ident { text, .. }) => text_is(text, "DOCTYPE"),
        _ => false,
    };
    let html_ok = match &d.html {
        Some(TokenTree::Ident { text, .. }) => text_is(text, "html"),
        _ => false,
    };
    if !doctype_ok {
        diags.push(Diagnostic::with_help(doctype_span, "expected `DOCTYPE` after `!`", "Add `!DOCTYPE html;`"));
    } else if !html_ok {
        diags.push(Diagnostic::with_help(html_span, "expected `html` after `!DOCTYPE`", "Add `!DOCTYPE html;`"));
    } else if d.semi.is_none() {
        diags.push(Diagnostic::with_help(html_span, "expected `;` after `!DOCTYPE html`", "Add `!DOCTYPE html;`"));
    }
    assert(reports(diags@) =~= r0 + doctype_reports(*d));
    let partial_doctype = match &d.doctype {
        Some(t) => t.deep_clone(),
        None => ident("DOCTYPE", Span::CallSite),
    };
    let partial_html = match &d.html {
        Some(t) => t.deep_clone(),
        None => ident("html", Span::CallSite),
    };
    let cs = Span::CallSite;
    let mut b: Vec<TokenTree> = empty_stream();
    push_punct(&mut b, '#', Spacing::Alone, cs);
    let mut attr: Vec<TokenTree> = empty_stream();
    push_ident(&mut attr, "allow", cs);
    let mut lint: Vec<TokenTree> = empty_stream();
    push_ident(&mut lint, "non_snake_case", cs);
    assert(stream_view(lint@) =~= seq![Tok::Ident("non_snake_case"@, cs)]);
    push_group(&mut attr, Delimiter::Parenthesis, lint, cs);
    assert(stream_view(attr@) =~= seq![
        Tok::Ident("allow"@, cs),
        Tok::Group(Delimiter::Parenthesis, seq![Tok::Ident("non_snake_case"@, cs)], cs, cs),
    ]);
    push_group(&mut b, Delimiter::Bracket, attr, cs);
    push_ident(&mut b, "let", cs);
    push_ident(&mut b, "DOCTYPE", cs);
    push_punct(&mut b, '=', Spacing::Alone, cs);
    push_group(&mut b, Delimiter::Parenthesis, empty_stream(), cs);
    push_punct(&mut b, ';', Spacing::Alone, cs);
    push_ident(&mut b, "let", cs);
    push_ident(&mut b, "html", cs);
    push_punct(&mut b, '=', Spacing::Alone, cs);
    push_group(&mut b, Delimiter::Parenthesis, empty_stream(), cs);
    push_punct(&mut b, ';', Spacing::Alone, cs);
    push_ident(&mut b, "let", cs);
    push_ident(&mut b, "_", cs);
    push_punct(&mut b, ':', Spacing::Alone, cs);
    push_group(&mut b, Delimiter::Parenthesis, empty_stream(), cs);
    push_punct(&mut b, '=', Spacing::Alone, d.bang);
    push_tree(&mut b, partial_doctype);
    push_punct(&mut b, ';', Spacing::Alone, cs);
    push_ident(&mut b, "let", cs);
    push_ident(&mut b, "_", cs);
    push_punct(&mut b, ':', Spacing::Alone, cs);
    push_group(&mut b, Delimiter::Parenthesis, empty_stream(), cs);
    push_punct(&mut b, '=', Spacing::Alone, cs);
    push_tree(&mut b, partial_html);
    push_punct(&mut b, ';', Spacing::Alone, cs);
    let ghost head = stream_view(b@);
    push_path(&mut b, &["leptos", "tachys", "html"], cs);
    push_colon2(&mut b, cs);
    push_ident(&mut b, "doctype", doctype_span);
    let mut arg: Vec<TokenTree> = empty_stream();
    push_tree(&mut arg, TokenTree::Literal { text: chars_of("\"html\""), span: cs });
    assert(stream_view(arg@) =~= seq![Tok::Literal("\"html\""@, cs)]);
    push_group(&mut b, Delimiter::Parenthesis, arg, cs);
    let ghost bv = stream_view(b@);
    let ghost s0 = stream_view(out@);
    push_group(out, Delimiter::Brace, b, cs);
    proof {
        let segs = seq!["leptos", "tachys", "html"];
        assert(strs_view(segs) =~= seq!["leptos"@, "tachys"@, "html"@]);
        let unit = Tok::Group(Delimiter::Parenthesis, Seq::<Tok>::empty(), cs, cs);
        assert(bv =~= doctype_tokens(*d)[0]->Group_1);
        assert(stream_view(out@) =~= s0 + doctype_tokens(*d));
    }
}

} // verus!
