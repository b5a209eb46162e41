//! What a view expands to, as a function of its syntax tree.
//!
//! Each function here states, token for token, the expansion that the
//! functions of the same name without the `_tokens` suffix append. The
//! expansion of an element holds the expansions of its children, so these
//! definitions recurse through the tree.

use vstd::prelude::*;

use crate::ast::attribute::directive::Directive;
use crate::ast::attribute::selector::SelectorShorthand;
use crate::ast::attribute::kv::KvAttr;
use crate::ast::attribute::Attr;
use crate::ast::children::{node_children, Child, Children, NodeChild};
use crate::ast::doctype::Doctype;
use crate::ast::element::Element;
use crate::ast::ident::{quoted, snake_text, KebabIdent};
use crate::ast::tag::{Tag, TagKind};
use crate::ast::value::{move_closure, stream_span, value_tokens};
use crate::expand::subroutines::{
    any_attr_path, class_methods, html_path, id_methods, xml_directive_expansion, xml_kv_tokens,
};
use crate::expand::utils::{spec_unraw, spec_upper_camel_to_snake_case, turbofish_tokens};
use crate::span::{spec_join, Span};
use crate::token::{
    begins_with, colon2, ends_with, grouped, leading_path, method_call, stream_view, tree_view, Delimiter, Spacing, Tok,
    TokenTree,
};

verus! {

/// `::leptos::component::component_view`, with which a component's view
/// begins.
pub open spec fn component_view_path() -> Seq<Tok> {
    leading_path(seq!["leptos"@, "component"@, "component_view"@], Span::CallSite)
}

/// `::std::convert::Into::into`, with which a slot's expansion begins.
pub open spec fn slot_into_path() -> Seq<Tok> {
    leading_path(seq!["std"@, "convert"@, "Into"@, "into"@], Span::CallSite)
}

/// A punctuation at the call site.
pub open spec fn punct_cs(c: char) -> Tok {
    Tok::Punct(c, Spacing::Alone, Span::CallSite)
}

/// The path of the function that makes an element of this tag, and the call
/// of it: `::leptos::tachys::html::element::div()`. `None` for a component.
pub open spec fn xml_tag_path(tag: Tag) -> Option<Seq<Tok>> {
    let call = grouped(Delimiter::Parenthesis, Seq::empty(), Span::CallSite);
    match tag {
        Tag::Component(..) => None,
        Tag::Html(i) => Some(leading_path(seq!["leptos"@, "tachys"@, "html"@, "element"@], Span::CallSite) + colon2(Span::CallSite) + seq![tree_view(i)] + call),
        Tag::Svg(i) => Some(leading_path(seq!["leptos"@, "tachys"@, "svg"@, "element"@], Span::CallSite) + colon2(Span::CallSite) + seq![tree_view(i)] + call),
        Tag::Math(i) => Some(leading_path(seq!["leptos"@, "tachys"@, "math"@, "element"@], Span::CallSite) + colon2(Span::CallSite) + seq![tree_view(i)] + call),
        Tag::WebComponent(k) => Some(leading_path(seq!["leptos"@, "tachys"@, "html"@, "element"@], Span::CallSite) + colon2(Span::CallSite) + seq![
            Tok::Ident("custom"@, k.spec_span()),
        ] + grouped(
            Delimiter::Parenthesis,
            seq![Tok::Literal(quoted(k.repr_view()), k.spec_span())],
            Span::CallSite,
        )),
    }
}

// ------------------------------------------------------------------------
// Attributes of an HTML-like element.

/// The key-value attributes and directives, in the order written;
/// directives that an element does not support expand to nothing.
pub open spec fn xml_attr_part(attrs: Seq<Attr>, kind: TagKind) -> Seq<Tok>
    decreases attrs.len(),
{
    if attrs.len() == 0 {
        Seq::empty()
    } else {
        xml_attr_part(attrs.drop_last(), kind) + xml_attr_tokens(attrs.last(), kind)
    }
}

/// The expansion of one attribute of an HTML-like element in the attribute
/// part: a key-value attribute or a directive; a spread goes elsewhere.
pub open spec fn xml_attr_tokens(a: Attr, kind: TagKind) -> Seq<Tok> {
    match a {
        Attr::Kv(kv) => xml_kv_tokens(kv, kind),
        Attr::Directive(d) => if d.dir is Ident {
            match xml_directive_expansion(d) {
                Some(t) => t,
                None => Seq::empty(),
            }
        } else {
            Seq::empty()
        },
        Attr::Spread(_) => Seq::empty(),
    }
}

/// `.add_any_attr(expr)` for each spread, in order.
pub open spec fn xml_spread_part(attrs: Seq<Attr>) -> Seq<Tok>
    decreases attrs.len(),
{
    if attrs.len() == 0 {
        Seq::empty()
    } else {
        xml_spread_part(attrs.drop_last()) + match attrs.last() {
            Attr::Spread(s) => method_call(Tok::Ident("add_any_attr"@, s.spec_dotdot()), stream_view(s.spec_rest())),
            _ => Seq::empty(),
        }
    }
}

// ------------------------------------------------------------------------
// Attributes of a component.

/// `.key(value)` for each key-value attribute, in order.
pub open spec fn component_kv_part(attrs: Seq<Attr>) -> Seq<Tok>
    decreases attrs.len(),
{
    if attrs.len() == 0 {
        Seq::empty()
    } else {
        component_kv_part(attrs.drop_last()) + match attrs.last() {
            Attr::Kv(kv) => seq![
                Tok::Punct('.', Spacing::Alone, kv.spec_span()),
                Tok::Ident(snake_text(kv.spec_key().repr_view()), kv.spec_key().spec_span()),
            ] + grouped(Delimiter::Parenthesis, value_tokens(kv.spec_value()), kv.spec_span()),
            _ => Seq::empty(),
        }
    }
}

/// Whether the directive is `clone:`.
pub open spec fn is_clone_directive(d: Directive) -> bool {
    d.dir is Ident && d.dir.text() == "clone"@
}

/// `let name = name.clone();`.
pub open spec fn clone_tokens(d: Directive) -> Seq<Tok> {
    let k = crate::ast::ident::key_ident(d.key);
    seq![
        Tok::Ident("let"@, Span::CallSite),
        k,
        punct_cs('='),
        k,
        punct_cs('.'),
        Tok::Ident("clone"@, Span::CallSite),
        Tok::Group(Delimiter::Parenthesis, Seq::empty(), Span::CallSite, Span::CallSite),
        punct_cs(';'),
    ]
}

/// The clones of the `clone:` directives, in order.
pub open spec fn clone_part(attrs: Seq<Attr>) -> Seq<Tok>
    decreases attrs.len(),
{
    if attrs.len() == 0 {
        Seq::empty()
    } else {
        clone_part(attrs.drop_last()) + match attrs.last() {
            Attr::Directive(d) => if is_clone_directive(d) {
                clone_tokens(d)
            } else {
                Seq::empty()
            },
            _ => Seq::empty(),
        }
    }
}

/// `class:name` on a component: `::leptos::tachys::html::class::class(("name", true))`.
pub open spec fn class_shorthand_path(dot: Span, class: KebabIdent) -> Seq<Tok> {
    html_path(seq!["class"@]) + colon2(Span::CallSite) + seq![Tok::Ident("class"@, dot)] + grouped(
        Delimiter::Parenthesis,
        grouped(
            Delimiter::Parenthesis,
            seq![
                Tok::Literal(quoted(class.repr_view()), Span::CallSite),
                punct_cs(','),
                Tok::Ident("true"@, Span::CallSite),
            ],
            Span::CallSite,
        ),
        Span::CallSite,
    )
}

/// `attr:id="a b"` on a component: `::leptos::tachys::html::attribute::id("a b")`.
pub open spec fn ids_path(pound: Span, joined: Seq<char>) -> Seq<Tok> {
    html_path(seq!["attribute"@]) + colon2(Span::CallSite) + seq![Tok::Ident("id"@, pound)] + grouped(
        Delimiter::Parenthesis,
        seq![Tok::Literal(quoted(joined), Span::CallSite)],
        Span::CallSite,
    )
}

/// The class shorthands of a component, as attributes, in order.
pub open spec fn class_paths(sels: Seq<SelectorShorthand>) -> Seq<Seq<Tok>>
    decreases sels.len(),
{
    if sels.len() == 0 {
        Seq::empty()
    } else {
        let rest = class_paths(sels.drop_last());
        match sels.last() {
            SelectorShorthand::Class { dot_symbol, class } => rest.push(class_shorthand_path(dot_symbol, class)),
            SelectorShorthand::Id { .. } => rest,
        }
    }
}

/// The `#` of the first id shorthand.
pub open spec fn first_pound(sels: Seq<SelectorShorthand>) -> Option<Span>
    decreases sels.len(),
{
    if sels.len() == 0 {
        None
    } else {
        let p = first_pound(sels.drop_last());
        if p is Some {
            p
        } else {
            match sels.last() {
                SelectorShorthand::Id { pound_symbol, .. } => Some(pound_symbol),
                SelectorShorthand::Class { .. } => None,
            }
        }
    }
}

/// The id shorthands, joined with spaces.
pub open spec fn ids_joined(sels: Seq<SelectorShorthand>) -> Seq<char>
    decreases sels.len(),
{
    if sels.len() == 0 {
        Seq::empty()
    } else {
        let prev = ids_joined(sels.drop_last());
        match sels.last() {
            SelectorShorthand::Id { id, .. } => if first_pound(sels.drop_last()) is None {
                id.repr_view()
            } else {
                prev + seq![' '] + id.repr_view()
            },
            SelectorShorthand::Class { .. } => prev,
        }
    }
}

/// The shorthands of a component as attributes: the classes in order, then
/// all the ids as one `id` attribute.
pub open spec fn selector_paths(sels: Seq<SelectorShorthand>) -> Seq<Seq<Tok>> {
    class_paths(sels) + match first_pound(sels) {
        Some(p) => seq![ids_path(p, ids_joined(sels))],
        None => Seq::empty(),
    }
}

/// The spreads and known directives other than `clone:` of a component, as
/// attributes, in order.
pub open spec fn attr_paths(attrs: Seq<Attr>) -> Seq<Seq<Tok>>
    decreases attrs.len(),
{
    if attrs.len() == 0 {
        Seq::empty()
    } else {
        let rest = attr_paths(attrs.drop_last());
        match attrs.last() {
            Attr::Spread(s) => rest.push(stream_view(s.spec_rest())),
            Attr::Directive(d) => if !is_clone_directive(d) && d.dir is Ident && any_attr_path(d) is Some {
                rest.push(any_attr_path(d)->0)
            } else {
                rest
            },
            Attr::Kv(_) => rest,
        }
    }
}

/// Each path followed by a comma.
pub open spec fn comma_each(paths: Seq<Seq<Tok>>) -> Seq<Tok>
    decreases paths.len(),
{
    if paths.len() == 0 {
        Seq::empty()
    } else {
        comma_each(paths.drop_last()) + paths.last() + seq![punct_cs(',')]
    }
}

/// The paths separated by commas.
pub open spec fn comma_between(paths: Seq<Seq<Tok>>) -> Seq<Tok>
    decreases paths.len(),
{
    if paths.len() == 0 {
        Seq::empty()
    } else if paths.len() == 1 {
        paths[0]
    } else {
        comma_between(paths.drop_last()) + seq![punct_cs(',')] + paths.last()
    }
}

/// The span of a component's path: from its name to the end of its
/// generics.
pub open spec fn component_path_span(name: TokenTree, generics: Option<Vec<TokenTree>>) -> Span {
    match generics {
        Some(g) => if g@.len() > 0 {
            spec_join(name.spec_span(), g@[g@.len() - 1].spec_span())
        } else {
            name.spec_span()
        },
        None => name.spec_span(),
    }
}

pub open spec fn opt_stream(g: Option<Vec<TokenTree>>) -> Option<Seq<Tok>> {
    match g {
        Some(g) => Some(stream_view(g@)),
        None => None,
    }
}

/// The path of a component as written: its name, then its generics.
pub open spec fn component_path(name: TokenTree, generics: Option<Vec<TokenTree>>) -> Seq<Tok> {
    seq![tree_view(name)] + match generics {
        Some(g) => stream_view(g@),
        None => Seq::empty(),
    }
}

pub open spec fn opt_tokens(g: Option<Vec<TokenTree>>) -> Option<Seq<TokenTree>> {
    match g {
        Some(g) => Some(g@),
        None => None,
    }
}

/// `.build()`, spanned at `sp`.
pub open spec fn build_call(sp: Span) -> Seq<Tok> {
    seq![Tok::Punct('.', Spacing::Alone, sp), Tok::Ident("build"@, sp)] + grouped(
        Delimiter::Parenthesis,
        Seq::empty(),
        sp,
    )
}

/// The span of the first child that is not a slot, or the call site.
pub open spec fn children_span(cs: Seq<Child>) -> Span {
    if node_children(cs).len() > 0 {
        node_children(cs)[0].spec_span()
    } else {
        Span::CallSite
    }
}

/// The span of a component's children fragment: that of the closure
/// arguments, or the call site.
pub open spec fn fragment_span(args: Option<Seq<TokenTree>>) -> Span {
    match args {
        Some(a) => if a.len() > 0 {
            stream_span(a)
        } else {
            Span::CallSite
        },
        None => Span::CallSite,
    }
}

/// Whether the child is a slot that can be passed: its tag is a component
/// without generics.
pub open spec fn is_passable_slot(c: Child) -> bool {
    c matches Child::Slot(_, el) && el.tag matches Tag::Component(_, g) && g is None
}

/// The name of a slot and the span of it.
pub open spec fn slot_name(c: Child) -> (Seq<char>, Span) {
    match c {
        Child::Slot(_, el) => match el.tag {
            Tag::Component(name, _) => (if name is Ident { name.text() } else { Seq::empty() }, name.spec_span()),
            _ => (Seq::empty(), Span::CallSite),
        },
        _ => (Seq::empty(), Span::CallSite),
    }
}

/// The token streams of a list of streams.
pub open spec fn paths_view(v: Seq<Vec<TokenTree>>) -> Seq<Seq<Tok>> {
    Seq::new(v.len(), |i: int| stream_view(v[i]@))
}

/// The groups of slots of a list of groups built while expanding.
pub open spec fn groups_view(g: Seq<(Vec<char>, Span, Vec<Vec<TokenTree>>)>) -> Seq<(Seq<char>, Span, Seq<Seq<Tok>>)> {
    Seq::new(g.len(), |i: int| (g[i].0@, g[i].1, paths_view(g[i].2@)))
}

/// Where the group of a name is, if any.
pub open spec fn group_index(groups: Seq<(Seq<char>, Span, Seq<Seq<Tok>>)>, name: Seq<char>) -> Option<int>
    decreases groups.len(),
{
    if groups.len() == 0 {
        None
    } else if groups.last().0 == name {
        match group_index(groups.drop_last(), name) {
            Some(i) => Some(i),
            None => Some(groups.len() - 1),
        }
    } else {
        group_index(groups.drop_last(), name)
    }
}

/// Adds an expansion to the group of its name, or starts a group for the
/// name, spanned at `sp`, after the others.
pub open spec fn add_to_groups(
    groups: Seq<(Seq<char>, Span, Seq<Seq<Tok>>)>,
    name: Seq<char>,
    sp: Span,
    t: Seq<Tok>,
) -> Seq<(Seq<char>, Span, Seq<Seq<Tok>>)> {
    match group_index(groups, name) {
        Some(i) => groups.update(i, (groups[i].0, groups[i].1, groups[i].2.push(t))),
        None => groups.push((name, sp, seq![t])),
    }
}

/// The method of a group of slots: `.name(slot)` for one slot,
/// `.name(<[_]>::into_vec(::std::boxed::Box::new([a, b])))` for several.
pub open spec fn slot_method(name: Seq<char>, sp: Span, slots: Seq<Seq<Tok>>) -> Seq<Tok> {
    let cs = Span::CallSite;
    let method = Tok::Ident("r#"@ + spec_upper_camel_to_snake_case(spec_unraw(name)), sp);
    let args = if slots.len() == 1 {
        slots[0]
    } else {
        seq![punct_cs('<')] + grouped(Delimiter::Bracket, seq![Tok::Ident("_"@, cs)], cs) + seq![punct_cs('>')]
            + colon2(cs) + seq![Tok::Ident("into_vec"@, cs)] + grouped(
            Delimiter::Parenthesis,
            leading_path(seq!["std"@, "boxed"@, "Box"@, "new"@], cs) + grouped(
                Delimiter::Parenthesis,
                grouped(Delimiter::Bracket, comma_between(slots), cs),
                cs,
            ),
            cs,
        )
    };
    method_call(method, args)
}

/// The methods of all the groups, in order.
pub open spec fn slot_methods(groups: Seq<(Seq<char>, Span, Seq<Seq<Tok>>)>) -> Seq<Tok>
    decreases groups.len(),
{
    if groups.len() == 0 {
        Seq::empty()
    } else {
        slot_methods(groups.drop_last()) + slot_method(groups.last().0, groups.last().1, groups.last().2)
    }
}

/// `{ #[allow(non_snake_case)] let DOCTYPE = (); let html = (); let _: () =
/// DOCTYPE; let _: () = html; ::leptos::tachys::html::doctype("html") }`,
/// with what was written of `DOCTYPE` and `html` in place of the names after
/// `=`.
pub open spec fn doctype_tokens(d: Doctype) -> Seq<Tok> {
    let cs = Span::CallSite;
    let doctype_span = match d.doctype {
        Some(t) => t.spec_span(),
        None => d.bang,
    };
    let partial_doctype = match d.doctype {
        Some(t) => tree_view(t),
        None => Tok::Ident("DOCTYPE"@, cs),
    };
    let partial_html = match d.html {
        Some(t) => tree_view(t),
        None => Tok::Ident("html"@, cs),
    };
    let unit = Tok::Group(Delimiter::Parenthesis, Seq::empty(), cs, cs);
    grouped(
        Delimiter::Brace,
        seq![
            punct_cs('#'),
            Tok::Group(
                Delimiter::Bracket,
                seq![
                    Tok::Ident("allow"@, cs),
                    Tok::Group(Delimiter::Parenthesis, seq![Tok::Ident("non_snake_case"@, cs)], cs, cs),
                ],
                cs,
                cs,
            ),
            Tok::Ident("let"@, cs),
            Tok::Ident("DOCTYPE"@, cs),
            punct_cs('='),
            unit,
            punct_cs(';'),
            Tok::Ident("let"@, cs),
            Tok::Ident("html"@, cs),
            punct_cs('='),
            unit,
            punct_cs(';'),
            Tok::Ident("let"@, cs),
            Tok::Ident("_"@, cs),
            punct_cs(':'),
            unit,
            Tok::Punct('=', Spacing::Alone, d.bang),
            partial_doctype,
            punct_cs(';'),
            Tok::Ident("let"@, cs),
            Tok::Ident("_"@, cs),
            punct_cs(':'),
            unit,
            punct_cs('='),
            partial_html,
            punct_cs(';'),
        ] + leading_path(seq!["leptos"@, "tachys"@, "html"@], cs) + colon2(cs) + seq![
            Tok::Ident("doctype"@, doctype_span),
            Tok::Group(Delimiter::Parenthesis, seq![Tok::Literal("\"html\""@, cs)], cs, cs),
        ],
        cs,
    )
}

/// What is missing of `!DOCTYPE html;`, the first missing part only, and
/// where it is reported.
pub open spec fn doctype_error(d: Doctype) -> Option<(Span, Seq<char>)> {
    let doctype_span = match d.doctype {
        Some(t) => t.spec_span(),
        None => d.bang,
    };
    let html_span = match d.html {
        Some(t) => t.spec_span(),
        None => doctype_span,
    };
    if !(d.doctype matches Some(t) && t is Ident && t.text() == "DOCTYPE"@) {
        Some((doctype_span, "expected `DOCTYPE` after `!`"@))
    } else if !(d.html matches Some(t) && t is Ident && t.text() == "html"@) {
        Some((html_span, "expected `html` after `!DOCTYPE`"@))
    } else if d.semi is None {
        Some((html_span, "expected `;` after `!DOCTYPE html`"@))
    } else {
        None
    }
}

// ------------------------------------------------------------------------
// The recursive part: nodes, elements and children.

/// The expansion of a node: a value, an element or a doctype.
pub open spec fn node_tokens(n: NodeChild) -> Seq<Tok>
    decreases n, 9nat,
{
    match n {
        NodeChild::Value(v) => value_tokens(v),
        NodeChild::Element(e) => element_tokens(e),
        NodeChild::Doctype(d) => doctype_tokens(d),
    }
}

/// The expansion of an element: the builder calls of an HTML-like element,
/// or the view of a component.
pub open spec fn element_tokens(e: Element) -> Seq<Tok>
    decreases e, 8nat,
{
    if e.tag is Component {
        component_tokens(e, false)
    } else {
        xml_tokens(e)
    }
}

/// The builder calls of an HTML, SVG or MathML element or web component:
/// the function that makes it, then its attributes and directives in the
/// order written, its class and id shorthands, its spreads, and a
/// `.child(IntoRender::into_render(..))` for each child that is not a slot.
pub open spec fn xml_tokens(e: Element) -> Seq<Tok>
    decreases e, 7nat,
{
    let attrs = e.attrs.0@;
    let children = match e.children {
        Some(c) => child_methods(c.0@),
        None => Seq::empty(),
    };
    match xml_tag_path(e.tag) {
        Some(p) => p + xml_attr_part(attrs, e.tag.spec_kind()) + class_methods(
            e.selectors.0@,
        ) + id_methods(e.selectors.0@) + xml_spread_part(attrs) + children,
        None => Seq::empty(),
    }
}

/// `.child(::leptos::prelude::IntoRender::into_render(node))` for each child
/// that is not a slot, the method spanned at the child.
pub open spec fn child_methods(cs: Seq<Child>) -> Seq<Tok>
    decreases cs, 6nat,
{
    if cs.len() == 0 {
        Seq::empty()
    } else {
        child_methods(cs.subrange(0, cs.len() - 1)) + match cs[cs.len() - 1] {
            Child::Node(n) => method_call(Tok::Ident("child"@, n.spec_span()), into_render_call(node_tokens(n))),
            Child::Slot(..) => Seq::empty(),
        }
    }
}

/// `::leptos::prelude::IntoRender::into_render(args)`.
pub open spec fn into_render_call(args: Seq<Tok>) -> Seq<Tok> {
    leading_path(seq!["leptos"@, "prelude"@, "IntoRender"@, "into_render"@], Span::CallSite) + grouped(
        Delimiter::Parenthesis,
        args,
        Span::CallSite,
    )
}

/// The children that are not slots, each followed by a comma at `sp`.
pub open spec fn comma_nodes(cs: Seq<Child>, sp: Span) -> Seq<Tok>
    decreases cs, 6nat,
{
    if cs.len() == 0 {
        Seq::empty()
    } else {
        comma_nodes(cs.subrange(0, cs.len() - 1), sp) + match cs[cs.len() - 1] {
            Child::Node(n) => node_tokens(n) + seq![Tok::Punct(',', Spacing::Alone, sp)],
            Child::Slot(..) => Seq::empty(),
        }
    }
}

/// The children that are not slots, one after the other.
pub open spec fn nodes_concat(cs: Seq<Child>) -> Seq<Tok>
    decreases cs, 6nat,
{
    if cs.len() == 0 {
        Seq::empty()
    } else {
        nodes_concat(cs.subrange(0, cs.len() - 1)) + match cs[cs.len() - 1] {
            Child::Node(n) => node_tokens(n),
            Child::Slot(..) => Seq::empty(),
        }
    }
}

/// The children that are not slots as the view of a component's children:
/// in a tuple `(a, b, )` spanned at `sp` if there are several, else the one
/// child as it is.
pub open spec fn children_fragment(cs: Seq<Child>, sp: Span) -> Seq<Tok>
    decreases cs, 7nat,
{
    let n = node_children(cs).len();
    if n > 1 {
        grouped(Delimiter::Parenthesis, comma_nodes(cs, sp), sp)
    } else {
        nodes_concat(cs)
    }
}

/// The children that are not slots as one view:
/// `::leptos::prelude::View::new((a, b, ))`, spanned at `sp`.
pub open spec fn root_tokens(cs: Seq<Child>, sp: Span) -> Seq<Tok> {
    leading_path(seq!["leptos"@, "prelude"@, "View"@, "new"@], sp) + grouped(
        Delimiter::Parenthesis,
        grouped(Delimiter::Parenthesis, comma_nodes(cs, sp), sp),
        sp,
    )
}

/// `.children({ clones; ::leptos::children::ToChildren::to_children(move || fragment) })`,
/// or, with closure arguments, `.children({ clones; move |args| fragment })`.
pub open spec fn component_children(c: Children, args: Option<Seq<TokenTree>>, clones: Seq<Tok>) -> Seq<Tok>
    decreases c, 8nat,
{
    let cs = c.0@;
    let child_span = children_span(cs);
    let frag_span = fragment_span(args);
    let fragment = children_fragment(cs, frag_span);
    let body = clones + match args {
        Some(a) => seq![Tok::Ident("move"@, frag_span)] + stream_view(a) + fragment,
        None => leading_path(seq!["leptos"@, "children"@, "ToChildren"@, "to_children"@], Span::CallSite)
            + grouped(Delimiter::Parenthesis, move_closure(child_span) + fragment, Span::CallSite),
    };
    method_call(Tok::Ident("children"@, child_span), grouped(Delimiter::Brace, body, Span::CallSite))
}

/// The slots among the children, grouped by name in the order the names
/// first appear, each group in the order written. A slot whose tag has
/// generics is left out.
pub open spec fn slot_groups(cs: Seq<Child>) -> Seq<(Seq<char>, Span, Seq<Seq<Tok>>)>
    decreases cs, 7nat,
{
    if cs.len() == 0 {
        Seq::empty()
    } else {
        let rest = slot_groups(cs.subrange(0, cs.len() - 1));
        let c = cs[cs.len() - 1];
        match c {
            Child::Slot(_, el) => if is_passable_slot(c) {
                add_to_groups(rest, slot_name(c).0, slot_name(c).1, component_tokens(el, true))
            } else {
                rest
            },
            Child::Node(_) => rest,
        }
    }
}

/// The view of a component (or, with `is_slot`, the expansion of a slot).
///
/// A component expands to
/// `::leptos::component::component_view(&Comp, ::leptos::component::component_props_builder(&Comp) .attr(..) .children(..) .slot(..) .build())`,
/// then `.add_any_attr((..,))` with its class and id shorthands, spreads and
/// directives, if there are any. A slot expands to
/// `::std::convert::Into::into(Slot::builder() .attr(..) .children(..) .build())`.
pub open spec fn component_tokens(e: Element, is_slot: bool) -> Seq<Tok>
    decreases e, 7nat,
{
    match e.tag {
        Tag::Component(name, generics) => {
            let cs = Span::CallSite;
            let path = turbofish_tokens(component_path(name, generics));
            let pspan = component_path_span(name, generics);
            let attrs = component_kv_part(e.attrs.0@);
            let clones = clone_part(e.attrs.0@);
            let children = match e.children {
                Some(c) => if node_children(c.0@).len() > 0 {
                    component_children(c, opt_tokens(e.children_args), clones)
                } else {
                    Seq::empty()
                },
                None => Seq::empty(),
            };
            if is_slot {
                slot_into_path() + grouped(
                    Delimiter::Parenthesis,
                    path + colon2(cs) + seq![Tok::Ident("builder"@, cs)] + grouped(Delimiter::Parenthesis, Seq::empty(), cs)
                        + attrs + children + build_call(pspan),
                    cs,
                )
            } else {
                let slots = match e.children {
                    Some(c) => slot_methods(slot_groups(c.0@)),
                    None => Seq::empty(),
                };
                let inner = seq![punct_cs('&')] + path + seq![punct_cs(',')] + leading_path(
                    seq!["leptos"@, "component"@, "component_props_builder"@],
                    pspan,
                ) + grouped(Delimiter::Parenthesis, seq![Tok::Punct('&', Spacing::Alone, pspan)] + path, pspan)
                    + attrs + children + slots + build_call(pspan);
                let paths = selector_paths(e.selectors.0@) + attr_paths(e.attrs.0@);
                component_view_path() + grouped(Delimiter::Parenthesis, inner, cs) + if paths.len() > 0 {
                    method_call(
                        Tok::Ident("add_any_attr"@, cs),
                        grouped(Delimiter::Parenthesis, comma_each(paths), cs),
                    )
                } else {
                    Seq::empty()
                }
            }
        },
        _ => Seq::empty(),
    }
}

// ------------------------------------------------------------------------
// One more attribute or shorthand at a time.

/// The attribute parts of an HTML-like element whose list is one attribute
/// longer.
pub proof fn lemma_xml_attr_parts_step(s: Seq<Attr>, i: int, kind: TagKind)
    requires
        0 <= i < s.len(),
    ensures
        xml_attr_part(s.subrange(0, i + 1), kind) == xml_attr_part(s.subrange(0, i), kind) + xml_attr_tokens(s[i], kind),
        xml_spread_part(s.subrange(0, i + 1)) == xml_spread_part(s.subrange(0, i)) + match s[i] {
            Attr::Spread(sp) => method_call(Tok::Ident("add_any_attr"@, sp.spec_dotdot()), stream_view(sp.spec_rest())),
            _ => Seq::empty(),
        },
{
    assert(s.subrange(0, i + 1).drop_last() =~= s.subrange(0, i));
}

/// The attribute parts of a component whose list is one attribute longer.
pub proof fn lemma_attr_parts_step(s: Seq<Attr>, i: int)
    requires
        0 <= i < s.len(),
    ensures
        component_kv_part(s.subrange(0, i + 1)) == component_kv_part(s.subrange(0, i)) + match s[i] {
            Attr::Kv(kv) => seq![
                Tok::Punct('.', Spacing::Alone, kv.spec_span()),
                Tok::Ident(snake_text(kv.spec_key().repr_view()), kv.spec_key().spec_span()),
            ] + grouped(Delimiter::Parenthesis, value_tokens(kv.spec_value()), kv.spec_span()),
            _ => Seq::empty(),
        },
        clone_part(s.subrange(0, i + 1)) == clone_part(s.subrange(0, i)) + match s[i] {
            Attr::Directive(d) => if is_clone_directive(d) {
                clone_tokens(d)
            } else {
                Seq::empty()
            },
            _ => Seq::empty(),
        },
        attr_paths(s.subrange(0, i + 1)) == match s[i] {
            Attr::Spread(sp) => attr_paths(s.subrange(0, i)).push(stream_view(sp.spec_rest())),
            Attr::Directive(d) => if !is_clone_directive(d) && d.dir is Ident && any_attr_path(d) is Some {
                attr_paths(s.subrange(0, i)).push(any_attr_path(d)->0)
            } else {
                attr_paths(s.subrange(0, i))
            },
            Attr::Kv(_) => attr_paths(s.subrange(0, i)),
        },
{
    assert(s.subrange(0, i + 1).drop_last() =~= s.subrange(0, i));
}

/// The shorthand parts of a list that is one shorthand longer.
pub proof fn lemma_selector_parts_step(s: Seq<SelectorShorthand>, i: int)
    requires
        0 <= i < s.len(),
    ensures
        class_paths(s.subrange(0, i + 1)) == match s[i] {
            SelectorShorthand::Class { dot_symbol, class } => class_paths(s.subrange(0, i)).push(
                class_shorthand_path(dot_symbol, class),
            ),
            SelectorShorthand::Id { .. } => class_paths(s.subrange(0, i)),
        },
        first_pound(s.subrange(0, i + 1)) == if first_pound(s.subrange(0, i)) is Some {
            first_pound(s.subrange(0, i))
        } else {
            match s[i] {
                SelectorShorthand::Id { pound_symbol, .. } => Some(pound_symbol),
                SelectorShorthand::Class { .. } => None,
            }
        },
        ids_joined(s.subrange(0, i + 1)) == match s[i] {
            SelectorShorthand::Id { id, .. } => if first_pound(s.subrange(0, i)) is None {
                id.repr_view()
            } else {
                ids_joined(s.subrange(0, i)) + seq![' '] + id.repr_view()
            },
            SelectorShorthand::Class { .. } => ids_joined(s.subrange(0, i)),
        },
{
    assert(s.subrange(0, i + 1).drop_last() =~= s.subrange(0, i));
}

/// The streams of a list of streams that is one stream longer.
pub proof fn lemma_paths_view_push(v: Seq<Vec<TokenTree>>, p: Vec<TokenTree>)
    ensures
        paths_view(v.push(p)) == paths_view(v).push(stream_view(p@)),
{
    assert(paths_view(v.push(p)) =~= paths_view(v).push(stream_view(p@)));
}

// ------------------------------------------------------------------------
// How slots are grouped.

/// Where the group of a name is: a group of that name, and no group of
/// that name if there is none.
pub proof fn lemma_group_index_found(groups: Seq<(Seq<char>, Span, Seq<Seq<Tok>>)>, name: Seq<char>)
    ensures
        group_index(groups, name) matches Some(i) ==> 0 <= i < groups.len() && groups[i].0 == name,
        group_index(groups, name) is None ==> forall|j: int| 0 <= j < groups.len() ==> groups[j].0 != name,
    decreases groups.len(),
{
    if groups.len() > 0 {
        lemma_group_index_found(groups.drop_last(), name);
        assert forall|j: int| 0 <= j < groups.len() - 1 implies groups.drop_last()[j] == groups[j] by {}
    }
}

/// The number of slots in the groups.
pub open spec fn group_total(groups: Seq<(Seq<char>, Span, Seq<Seq<Tok>>)>) -> nat
    decreases groups.len(),
{
    if groups.len() == 0 {
        0
    } else {
        group_total(groups.drop_last()) + groups.last().2.len()
    }
}

/// The number of slots that can be passed among the children.
pub open spec fn passable_slots(cs: Seq<Child>) -> nat
    decreases cs.len(),
{
    if cs.len() == 0 {
        0
    } else {
        passable_slots(cs.drop_last()) + if is_passable_slot(cs.last()) {
            1nat
        } else {
            0nat
        }
    }
}

proof fn lemma_group_total_update(
    groups: Seq<(Seq<char>, Span, Seq<Seq<Tok>>)>,
    i: int,
    t: Seq<Tok>,
)
    requires
        0 <= i < groups.len(),
    ensures
        group_total(groups.update(i, (groups[i].0, groups[i].1, groups[i].2.push(t)))) == group_total(groups) + 1,
    decreases groups.len(),
{
    let u = groups.update(i, (groups[i].0, groups[i].1, groups[i].2.push(t)));
    if i == groups.len() - 1 {
        assert(u.drop_last() =~= groups.drop_last());
    } else {
        lemma_group_total_update(groups.drop_last(), i, t);
        assert(u.drop_last() =~= groups.drop_last().update(
            i,
            (groups[i].0, groups[i].1, groups[i].2.push(t)),
        ));
    }
}

/// No two groups of slots have the same name: all the slots of one name are
/// passed to the component in one method.
pub proof fn law_slot_groups_distinct(cs: Seq<Child>)
    ensures
        forall|i: int, j: int|
            0 <= i < j < slot_groups(cs).len() ==> slot_groups(cs)[i].0 != slot_groups(cs)[j].0,
    decreases cs.len(),
{
    if cs.len() > 0 {
        let prefix = cs.subrange(0, cs.len() - 1);
        law_slot_groups_distinct(prefix);
        let g = slot_groups(prefix);
        let c = cs[cs.len() - 1];
        if is_passable_slot(c) {
            let name = slot_name(c).0;
            lemma_group_index_found(g, name);
        }
    }
}

/// Every slot that can be passed is passed, exactly once: the groups hold as
/// many slots as there are.
pub proof fn law_slot_groups_keep_every_slot(cs: Seq<Child>)
    ensures
        group_total(slot_groups(cs)) == passable_slots(cs),
    decreases cs.len(),
{
    if cs.len() > 0 {
        let prefix = cs.subrange(0, cs.len() - 1);
        assert(prefix =~= cs.drop_last());
        law_slot_groups_keep_every_slot(prefix);
        let g = slot_groups(prefix);
        let c = cs[cs.len() - 1];
        if is_passable_slot(c) {
            let el = c->Slot_1;
            let name = slot_name(c).0;
            lemma_group_index_found(g, name);
            match group_index(g, name) {
                Some(i) => {
                    lemma_group_total_update(g, i, component_tokens(el, true));
                },
                None => {
                    let t = component_tokens(el, true);
                    assert(g.push((name, slot_name(c).1, seq![t])).drop_last() =~= g);
                },
            }
        }
    }
}


/// A slot with children that are not slots hands them to its builder as a
/// component does. The slot's builder call ends with its attributes, then
/// the `.children(..)` call of those children, then `.build()`; the
/// component made of the same element ends with the same attributes and the
/// same `.children(..)` call, then its slots, then `.build()`.
pub proof fn law_slot_keeps_its_children(e: Element)
    requires
        e.tag is Component,
        e.children matches Some(c) && node_children(c.0@).len() > 0,
    ensures
        ({
            let c = e.children->0;
            let attrs = component_kv_part(e.attrs.0@);
            let ch = component_children(c, opt_tokens(e.children_args), clone_part(e.attrs.0@));
            let b = build_call(component_path_span(e.tag->Component_0, e.tag->Component_1));
            let slots = slot_methods(slot_groups(c.0@));
            &&& ch.len() == 3
            &&& ch[0] == Tok::Punct('.', Spacing::Alone, Span::CallSite)
            &&& ch[1] == Tok::Ident("children"@, children_span(c.0@))
            &&& (component_tokens(e, true).last() matches Tok::Group(Delimiter::Parenthesis, inner, _, _)
                && ends_with(inner, attrs + ch + b))
            &&& (component_tokens(e, false)[component_view_path().len() as int] matches Tok::Group(
                Delimiter::Parenthesis,
                inner,
                _,
                _,
            ) && ends_with(inner, attrs + ch + slots + b))
        }),
{
    let c = e.children->0;
    let attrs = component_kv_part(e.attrs.0@);
    let ch = component_children(c, opt_tokens(e.children_args), clone_part(e.attrs.0@));
    let (name, generics) = (e.tag->Component_0, e.tag->Component_1);
    let b = build_call(component_path_span(name, generics));
    let slots = slot_methods(slot_groups(c.0@));
    let cs = Span::CallSite;
    let path = turbofish_tokens(component_path(name, generics));
    let pspan = component_path_span(name, generics);
    let sl_inner = path + colon2(cs) + seq![Tok::Ident("builder"@, cs)] + grouped(Delimiter::Parenthesis, Seq::empty(), cs)
        + attrs + ch + b;
    assert(component_tokens(e, true) == slot_into_path() + grouped(Delimiter::Parenthesis, sl_inner, cs));
    let x = attrs + ch + b;
    assert(sl_inner.subrange(sl_inner.len() - x.len(), sl_inner.len() as int) =~= x);
    let co_inner = seq![punct_cs('&')] + path + seq![punct_cs(',')] + leading_path(
        seq!["leptos"@, "component"@, "component_props_builder"@],
        pspan,
    ) + grouped(Delimiter::Parenthesis, seq![Tok::Punct('&', Spacing::Alone, pspan)] + path, pspan) + attrs + ch
        + slots + b;
    let paths = selector_paths(e.selectors.0@) + attr_paths(e.attrs.0@);
    let tail = if paths.len() > 0 {
        method_call(Tok::Ident("add_any_attr"@, cs), grouped(Delimiter::Parenthesis, comma_each(paths), cs))
    } else {
        Seq::empty()
    };
    assert(component_tokens(e, false) == component_view_path() + grouped(Delimiter::Parenthesis, co_inner, cs) + tail);
    assert(component_tokens(e, false)[component_view_path().len() as int] == Tok::Group(Delimiter::Parenthesis, co_inner, cs, cs));
    let y = attrs + ch + slots + b;
    assert(co_inner.subrange(co_inner.len() - y.len(), co_inner.len() as int) =~= y);
}


/// The attributes and directives of an element expand one after the other,
/// in the order written: those of two runs of attributes are those of the
/// first, then those of the second; so are their spreads.
pub proof fn law_xml_attrs_keep_their_order(a: Seq<Attr>, b: Seq<Attr>, kind: TagKind)
    ensures
        xml_attr_part(a + b, kind) == xml_attr_part(a, kind) + xml_attr_part(b, kind),
        xml_spread_part(a + b) == xml_spread_part(a) + xml_spread_part(b),
        component_kv_part(a + b) == component_kv_part(a) + component_kv_part(b),
        clone_part(a + b) == clone_part(a) + clone_part(b),
    decreases b.len(),
{
    if b.len() == 0 {
        assert(a + b =~= a);
        assert(xml_attr_part(a, kind) + Seq::<Tok>::empty() =~= xml_attr_part(a, kind));
        assert(xml_spread_part(a) + Seq::<Tok>::empty() =~= xml_spread_part(a));
        assert(component_kv_part(a) + Seq::<Tok>::empty() =~= component_kv_part(a));
        assert(clone_part(a) + Seq::<Tok>::empty() =~= clone_part(a));
    } else {
        law_xml_attrs_keep_their_order(a, b.drop_last(), kind);
        assert((a + b).drop_last() =~= a + b.drop_last());
        assert((a + b).last() == b.last());
        assert(xml_attr_part(a + b, kind) =~= xml_attr_part(a, kind) + xml_attr_part(b, kind));
        assert(xml_spread_part(a + b) =~= xml_spread_part(a) + xml_spread_part(b));
        assert(component_kv_part(a + b) =~= component_kv_part(a) + component_kv_part(b));
        assert(clone_part(a + b) =~= clone_part(a) + clone_part(b));
    }
}

/// A key-value attribute on a component is the builder method named as its
/// key in snake_case, called with its value:
/// `.key(value)`, spanned at the attribute.
pub proof fn law_component_attribute_is_a_builder_call(kv: KvAttr)
    ensures
        component_kv_part(seq![Attr::Kv(kv)]) == seq![
            Tok::Punct('.', Spacing::Alone, kv.spec_span()),
            Tok::Ident(snake_text(kv.spec_key().repr_view()), kv.spec_key().spec_span()),
            Tok::Group(Delimiter::Parenthesis, value_tokens(kv.spec_value()), kv.spec_span(), kv.spec_span()),
        ],
{
    let s = seq![Attr::Kv(kv)];
    assert(s.drop_last() =~= Seq::<Attr>::empty());
    assert(component_kv_part(s.drop_last()) == Seq::<Tok>::empty());
    assert(component_kv_part(s) =~= seq![
        Tok::Punct('.', Spacing::Alone, kv.spec_span()),
        Tok::Ident(snake_text(kv.spec_key().repr_view()), kv.spec_key().spec_span()),
        Tok::Group(Delimiter::Parenthesis, value_tokens(kv.spec_value()), kv.spec_span(), kv.spec_span()),
    ]);
}

/// The children of an element become `.child(..)` calls one after the
/// other, in the order written: those of two runs of children are those of
/// the first, then those of the second.
pub proof fn law_children_keep_their_order(a: Seq<Child>, b: Seq<Child>)
    ensures
        child_methods(a + b) == child_methods(a) + child_methods(b),
    decreases b.len(),
{
    if b.len() == 0 {
        assert(a + b =~= a);
        assert(child_methods(a) + Seq::<Tok>::empty() =~= child_methods(a));
    } else {
        let bp = b.subrange(0, b.len() - 1);
        law_children_keep_their_order(a, bp);
        assert((a + b).subrange(0, (a + b).len() - 1) =~= a + bp);
        assert((a + b)[(a + b).len() - 1] == b[b.len() - 1]);
        assert(child_methods(a + b) =~= child_methods(a) + child_methods(b));
    }
}

/// A child that is a node becomes
/// `.child(::leptos::prelude::IntoRender::into_render(node))`, the method
/// spanned at the child; a slot adds no `.child(..)`.
pub proof fn law_child_is_rendered(c: Child)
    ensures
        child_methods(seq![c]) == match c {
            Child::Node(n) => seq![
                Tok::Punct('.', Spacing::Alone, Span::CallSite),
                Tok::Ident("child"@, n.spec_span()),
                Tok::Group(
                    Delimiter::Parenthesis,
                    leading_path(seq!["leptos"@, "prelude"@, "IntoRender"@, "into_render"@], Span::CallSite)
                        + seq![Tok::Group(Delimiter::Parenthesis, node_tokens(n), Span::CallSite, Span::CallSite)],
                    Span::CallSite,
                    Span::CallSite,
                ),
            ],
            Child::Slot(..) => Seq::empty(),
        },
{
    let s = seq![c];
    assert(s.subrange(0, 0) =~= Seq::<Child>::empty());
    assert(child_methods(s.subrange(0, 0)) == Seq::<Tok>::empty());
    assert(s[0] == c);
    assert(child_methods(s) =~= match c {
        Child::Node(n) => seq![
            Tok::Punct('.', Spacing::Alone, Span::CallSite),
            Tok::Ident("child"@, n.spec_span()),
            Tok::Group(
                Delimiter::Parenthesis,
                leading_path(seq!["leptos"@, "prelude"@, "IntoRender"@, "into_render"@], Span::CallSite)
                    + seq![Tok::Group(Delimiter::Parenthesis, node_tokens(n), Span::CallSite, Span::CallSite)],
                Span::CallSite,
                Span::CallSite,
            ),
        ],
        Child::Slot(..) => Seq::<Tok>::empty(),
    });
}

/// The children of a component are handed over in one
/// `.children({ .. })` call, spanned at the first child that is not a slot.
/// Its block starts with the clones of the `clone:` directives; without
/// closure arguments, it then makes the children with
/// `::leptos::children::ToChildren::to_children(move || ..)`; with them, it
/// is the closure `move |args| ..` itself.
pub proof fn law_component_children_clone_first(c: Children, args: Option<Seq<TokenTree>>, clones: Seq<Tok>)
    ensures
        ({
            let t = component_children(c, args, clones);
            &&& t.len() == 3
            &&& t[0] == Tok::Punct('.', Spacing::Alone, Span::CallSite)
            &&& t[1] == Tok::Ident("children"@, children_span(c.0@))
            &&& t[2] matches Tok::Group(Delimiter::Parenthesis, inner, _, _)
                && inner.len() == 1
                && (inner[0] matches Tok::Group(Delimiter::Brace, body, _, _)
                && begins_with(body, clones)
                && match args {
                    None => begins_with(
                        body.subrange(clones.len() as int, body.len() as int),
                        leading_path(seq!["leptos"@, "children"@, "ToChildren"@, "to_children"@], Span::CallSite)
                            + seq![
                            Tok::Group(
                                Delimiter::Parenthesis,
                                move_closure(children_span(c.0@)) + children_fragment(c.0@, fragment_span(args)),
                                Span::CallSite,
                                Span::CallSite,
                            ),
                        ],
                    ),
                    Some(a) => body.subrange(clones.len() as int, body.len() as int) == seq![
                        Tok::Ident("move"@, fragment_span(args)),
                    ] + stream_view(a) + children_fragment(c.0@, fragment_span(args)),
                })
        }),
{
    let cs = c.0@;
    let frag = children_fragment(cs, fragment_span(args));
    let rest = match args {
        Some(a) => seq![Tok::Ident("move"@, fragment_span(args))] + stream_view(a) + frag,
        None => leading_path(seq!["leptos"@, "children"@, "ToChildren"@, "to_children"@], Span::CallSite)
            + grouped(Delimiter::Parenthesis, move_closure(children_span(cs)) + frag, Span::CallSite),
    };
    let body = clones + rest;
    assert(body.subrange(0, clones.len() as int) =~= clones);
    assert(body.subrange(clones.len() as int, body.len() as int) =~= rest);
    match args {
        None => {
            assert(rest.subrange(0, rest.len() as int) =~= rest);
        },
        Some(_) => {},
    }
}

/// The slots of one name are handed to the component's builder in one
/// method, `.r#name(..)`: a single slot as it is, several as a `Vec`,
/// `<[_]>::into_vec(::std::boxed::Box::new([a, b]))`, in the order given.
pub proof fn law_slot_method_shape(name: Seq<char>, sp: Span, slots: Seq<Seq<Tok>>)
    requires
        slots.len() > 0,
    ensures
        ({
            let t = slot_method(name, sp, slots);
            let cs = Span::CallSite;
            &&& t.len() == 3
            &&& t[0] == Tok::Punct('.', Spacing::Alone, cs)
            &&& t[1] == Tok::Ident("r#"@ + spec_upper_camel_to_snake_case(spec_unraw(name)), sp)
            &&& slots.len() == 1 ==> t[2] == Tok::Group(Delimiter::Parenthesis, slots[0], cs, cs)
            &&& slots.len() > 1 ==> t[2] == Tok::Group(
                Delimiter::Parenthesis,
                seq![
                    punct_cs('<'),
                    Tok::Group(Delimiter::Bracket, seq![Tok::Ident("_"@, cs)], cs, cs),
                    punct_cs('>'),
                ] + colon2(cs) + seq![
                    Tok::Ident("into_vec"@, cs),
                    Tok::Group(
                        Delimiter::Parenthesis,
                        leading_path(seq!["std"@, "boxed"@, "Box"@, "new"@], cs) + seq![
                            Tok::Group(
                                Delimiter::Parenthesis,
                                seq![Tok::Group(Delimiter::Bracket, comma_between(slots), cs, cs)],
                                cs,
                                cs,
                            ),
                        ],
                        cs,
                        cs,
                    ),
                ],
                cs,
                cs,
            )
        }),
{
    let cs = Span::CallSite;
    if slots.len() > 1 {
        let args = seq![punct_cs('<')] + grouped(Delimiter::Bracket, seq![Tok::Ident("_"@, cs)], cs) + seq![punct_cs('>')]
            + colon2(cs) + seq![Tok::Ident("into_vec"@, cs)] + grouped(
            Delimiter::Parenthesis,
            leading_path(seq!["std"@, "boxed"@, "Box"@, "new"@], cs) + grouped(
                Delimiter::Parenthesis,
                grouped(Delimiter::Bracket, comma_between(slots), cs),
                cs,
            ),
            cs,
        );
        assert(args =~= seq![
            punct_cs('<'),
            Tok::Group(Delimiter::Bracket, seq![Tok::Ident("_"@, cs)], cs, cs),
            punct_cs('>'),
        ] + colon2(cs) + seq![
            Tok::Ident("into_vec"@, cs),
            Tok::Group(
                Delimiter::Parenthesis,
                leading_path(seq!["std"@, "boxed"@, "Box"@, "new"@], cs) + seq![
                    Tok::Group(
                        Delimiter::Parenthesis,
                        seq![Tok::Group(Delimiter::Bracket, comma_between(slots), cs, cs)],
                        cs,
                        cs,
                    ),
                ],
                cs,
                cs,
            ),
        ]);
    }
}


/// The builder calls of an HTML-like element come in this order: the
/// function that makes the element, its attributes and directives, its
/// class shorthands, its id shorthands, its spreads, and last its children.
pub proof fn law_element_expansion_order(e: Element)
    requires
        !(e.tag is Component),
    ensures
        ({
            let attrs = e.attrs.0@;
            let children = match e.children {
                Some(c) => child_methods(c.0@),
                None => Seq::empty(),
            };
            let head = xml_tag_path(e.tag)->0 + xml_attr_part(attrs, e.tag.spec_kind());
            let tail = xml_spread_part(attrs) + children;
            &&& xml_tag_path(e.tag) is Some
            &&& begins_with(xml_tokens(e), head)
            &&& ends_with(xml_tokens(e), tail)
            &&& xml_tokens(e).subrange(head.len() as int, xml_tokens(e).len() - tail.len()) == class_methods(
                e.selectors.0@,
            ) + id_methods(e.selectors.0@)
        }),
{
    let attrs = e.attrs.0@;
    let children = match e.children {
        Some(c) => child_methods(c.0@),
        None => Seq::empty(),
    };
    let head = xml_tag_path(e.tag)->0 + xml_attr_part(attrs, e.tag.spec_kind());
    let mid = class_methods(e.selectors.0@) + id_methods(e.selectors.0@);
    let tail = xml_spread_part(attrs) + children;
    let t = xml_tokens(e);
    assert(t =~= head + mid + tail);
    assert(t.subrange(0, head.len() as int) =~= head);
    assert(t.subrange(t.len() - tail.len(), t.len() as int) =~= tail);
    assert(t.subrange(head.len() as int, t.len() - tail.len()) =~= mid);
}

} // verus!
