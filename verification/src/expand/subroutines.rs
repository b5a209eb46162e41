//! The pieces of an element's expansion.

use vstd::prelude::*;

use crate::ast::attribute::directive::Directive;
use crate::ast::attribute::kv::KvAttr;
use crate::ast::children::{lemma_node_children_concat, node_children, Child, Children, NodeChild};
use crate::expand::expansion::{children_span, component_children, fragment_span};
use crate::expand::reported::nodes_reports;
use crate::expand::children_fragment_tokens;
use crate::ast::attribute::spread_attrs::SpreadAttr;
use crate::ast::attribute::selector::{SelectorShorthand, SelectorShorthands};
use crate::ast::ident::{key_ident, key_ident_reports, key_ident_text, key_lit_str, key_lit_text, snake_text, str_colored, KebabIdentOrStr};
use crate::ast::tag::TagKind;
use crate::ast::value::{move_closure, value_reports, value_tokens, Value};
use crate::expand::utils::{emit_error_if_modifier, modifier_reports, spec_unraw};
use crate::lit::{literal_kind, str_literal_value, syn_lit_kind, syn_str_value, LitKind};
use crate::parse::{extends, lemma_reports_push, report, report_help, reports, Diagnostic, Report};
use crate::span::{spec_join, Span};
use crate::text::{chars_of, contains_char, starts_with, text_is};
use crate::token::{
    clone_stream, colon2, empty_stream, grouped, ident, leading_path, method_call, push_colon2,
    push_group, push_ident, push_method_call, push_path, push_punct, push_stream, push_tree,
    begins_with, stream_view, strs_view, tree_view, Delimiter, Spacing, Tok, TokenTree,
};

verus! {

broadcast use crate::token::lemma_stream_view, lemma_reports_push, vstd::std_specs::vec::group_vec_axioms;

/// How an attribute is set on an element.
#[derive(Clone, Copy, Debug, PartialEq, Eq, Structural)]
pub enum AttributeKind {
    /// `class`
    Class,
    /// `style`
    Style,
    /// An attribute with a `-`, like `data-*`, but no `aria-*` attribute.
    Custom,
    /// An attribute set by a method, so that it is checked.
    OtherChecked,
}

pub open spec fn spec_attribute_kind(name: Seq<char>) -> AttributeKind {
    if name == "class"@ {
        AttributeKind::Class
    } else if name == "style"@ {
        AttributeKind::Style
    } else if name.contains('-') && !(name.len() >= 5 && name.subrange(0, 5) == "aria-"@) {
        AttributeKind::Custom
    } else {
        AttributeKind::OtherChecked
    }
}

impl AttributeKind {
    pub fn is_custom(self) -> (r: bool)
        ensures
            r == (self == AttributeKind::Custom),
    {
        self == AttributeKind::Custom
    }

    pub fn is_class_or_style(self) -> (r: bool)
        ensures
            r == (self == AttributeKind::Class || self == AttributeKind::Style),
    {
        self == AttributeKind::Class || self == AttributeKind::Style
    }

    /// The kind of the attribute of this name.
    pub fn from_chars(name: &Vec<char>) -> (k: AttributeKind)
        ensures
            k == spec_attribute_kind(name@),
    {
        if text_is(name, "class") {
            AttributeKind::Class
        } else if text_is(name, "style") {
            AttributeKind::Style
        } else if contains_char(name, '-') && !starts_with(name, "aria-") {
            proof {
                assert("aria-"@.len() == 5) by {
                    reveal_strlit("aria-");
                }
            }
            AttributeKind::Custom
        } else {
            proof {
                assert("aria-"@.len() == 5) by {
                    reveal_strlit("aria-");
                }
            }
            AttributeKind::OtherChecked
        }
    }

    /// The kind of the attribute of this name.
    pub fn from(name: &str) -> (k: AttributeKind)
        ensures
            k == spec_attribute_kind(name@),
    {
        AttributeKind::from_chars(&chars_of(name))
    }
}

/// `class` and `style` are always set by their own methods, on every kind
/// of element: they are never unchecked attributes.
pub proof fn law_class_and_style_are_checked(tag: TagKind)
    ensures
        !is_unchecked_attr("class"@, tag),
        !is_unchecked_attr("style"@, tag),
{
    reveal_strlit("class");
    reveal_strlit("style");
}

/// An `aria-*` attribute is never a custom attribute, though it has a `-`.
pub proof fn law_aria_attributes_are_not_custom(name: Seq<char>)
    requires
        name.len() >= 5,
        name.subrange(0, 5) == "aria-"@,
    ensures
        spec_attribute_kind(name) != AttributeKind::Custom,
{
}

/// The tokens of an optional value: nothing if there is none.
pub open spec fn opt_value_tokens(v: Option<Value>) -> Seq<Tok> {
    match v {
        Some(v) => value_tokens(v),
        None => Seq::empty(),
    }
}

/// What an optional value reports when it expands.
pub open spec fn opt_value_reports(v: Option<Value>) -> Seq<Report> {
    match v {
        Some(v) => value_reports(v),
        None => Seq::empty(),
    }
}

/// What the event of an `on:` directive reports: a string key, then a
/// modifier other than `undelegated`.
pub open spec fn event_reports(d: Directive) -> Seq<Report> {
    (match d.key {
        KebabIdentOrStr::Str(s) => seq![report(s.spec_span(), "event type must be an identifier"@)],
        KebabIdentOrStr::KebabIdent(_) => Seq::empty(),
    }) + (match d.modifier {
        Some(m) => if m is Ident && m.text() == "undelegated"@ {
            Seq::empty()
        } else {
            seq![report_help(m.spec_span(), "unknown modifier"@, ":undelegated is the only known modifier"@)]
        },
        None => Seq::empty(),
    })
}

/// What a `use:` directive reports: a string key, a modifier, then what its
/// value reports.
pub open spec fn use_reports(d: Directive) -> Seq<Report> {
    key_ident_reports(d.key) + modifier_reports(d.modifier) + opt_value_reports(d.value)
}

/// What a `clone:` directive reports: a string key, a modifier, then a
/// value, which it does not take.
pub open spec fn clone_reports(d: Directive) -> Seq<Report> {
    key_ident_reports(d.key) + modifier_reports(d.modifier) + match d.value {
        Some(v) => seq![report(v.spec_span(), "`clone:` does not take any values"@)],
        None => Seq::empty(),
    }
}

/// What a directive on an HTML-like element reports. `attr:` and `clone:`
/// are not supported there, and any other name but `class`, `style`,
/// `prop`, `on` and `use` is unknown.
pub open spec fn xml_directive_reports(d: Directive) -> Seq<Report> {
    let name = dir_name(d);
    if name == "class"@ || name == "style"@ || name == "prop"@ {
        modifier_reports(d.modifier) + opt_value_reports(d.value)
    } else if name == "on"@ {
        event_reports(d) + opt_value_reports(d.value)
    } else if name == "use"@ {
        use_reports(d)
    } else if name == "attr"@ || name == "clone"@ {
        seq![report(d.dir.spec_span(), "`"@ + name + ":` is not supported on elements"@)]
    } else {
        seq![report(d.dir.spec_span(), "unknown directive"@)]
    }
}

/// What a directive on a component reports as it is turned into an
/// attribute; nothing for an unknown one, which the caller reports.
pub open spec fn any_attr_reports(d: Directive) -> Seq<Report> {
    let name = dir_name(d);
    if name == "class"@ || name == "style"@ {
        opt_value_reports(d.value)
    } else if name == "attr"@ {
        if spec_attribute_kind(key_value_text(d.key)) == AttributeKind::Custom {
            opt_value_reports(d.value)
        } else {
            key_ident_reports(d.key) + opt_value_reports(d.value)
        }
    } else if name == "prop"@ {
        opt_value_reports(d.value)
    } else if name == "on"@ {
        event_reports(d) + opt_value_reports(d.value)
    } else if name == "use"@ {
        use_reports(d)
    } else {
        Seq::empty()
    }
}

/// Whether an attribute on an element of this kind is set unchecked, with
/// `.attr(name, value)`: on an SVG element or web component, or a custom
/// attribute; never `class` or `style`.
pub open spec fn is_unchecked_attr(name: Seq<char>, tag: TagKind) -> bool {
    let k = spec_attribute_kind(name);
    (tag == TagKind::Svg || tag == TagKind::WebComponent || k == AttributeKind::Custom) && !(k
        == AttributeKind::Class || k == AttributeKind::Style)
}

/// The expansion of a key-value attribute on an HTML-like element.
pub open spec fn xml_kv_tokens(attr: KvAttr, tag: TagKind) -> Seq<Tok> {
    let key = attr.spec_key();
    let value = value_tokens(attr.spec_value());
    if key.repr_view() == "ref"@ {
        method_call(Tok::Ident("node_ref"@, key.spec_span()), value)
    } else if is_unchecked_attr(key.repr_view(), tag) {
        method_call(
            Tok::Ident("attr"@, Span::CallSite),
            seq![
                Tok::Literal(crate::ast::ident::quoted(key.repr_view()), Span::CallSite),
                Tok::Punct(',', Spacing::Alone, Span::CallSite),
            ] + leading_path(
                seq!["leptos"@, "prelude"@, "IntoAttributeValue"@, "into_attribute_value"@],
                Span::CallSite,
            ) + grouped(Delimiter::Parenthesis, value, Span::CallSite),
        )
    } else {
        method_call(Tok::Ident(snake_text(key.repr_view()), key.spec_span()), value)
    }
}

/// Appends the expansion of a key-value attribute on an HTML, SVG or MathML
/// element or web component.
///
/// `ref` becomes `.node_ref(value)`. On an SVG element or web component, or
/// for a custom attribute (a `-` in its name, no `aria-*`), the attribute is
/// set unchecked: `.attr("key", ::leptos::prelude::IntoAttributeValue::into_attribute_value(value))`;
/// `class` and `style` never are. Any other is a method: `.key(value)`.
pub fn xml_kv_attribute_tokens(attr: &KvAttr, element_tag: TagKind, out: &mut Vec<TokenTree>, diags: &mut Vec<Diagnostic>)
    ensures
        stream_view(final(out)@) == stream_view(old(out)@) + xml_kv_tokens(*attr, element_tag),
        extends(old(diags)@, final(diags)@),
        reports(final(diags)@) == reports(old(diags)@) + value_reports(attr.spec_value()),
{
    let key = attr.key();
    let value = attr.value();
    let mut v: Vec<TokenTree> = empty_stream();
    value.to_tokens(&mut v, diags);
    let ghost vv = stream_view(v@);
    assert(vv =~= value_tokens(attr.spec_value()));
    if text_is(key.repr_chars(), "ref") {
        push_method_call(out, ident("node_ref", key.span()), v);
    } else {
        let attr_kind = AttributeKind::from_chars(key.repr_chars());
        let is_web_or_svg = element_tag == TagKind::Svg || element_tag == TagKind::WebComponent;
        if (is_web_or_svg || attr_kind.is_custom()) && !attr_kind.is_class_or_style() {
            let mut args: Vec<TokenTree> = empty_stream();
            push_tree(&mut args, TokenTree::Literal { text: crate::ast::ident::quote_chars(key.repr_chars()), span: Span::CallSite });
            push_punct(&mut args, ',', Spacing::Alone, Span::CallSite);
            push_path(&mut args, &["leptos", "prelude", "IntoAttributeValue", "into_attribute_value"], Span::CallSite);
            push_group(&mut args, Delimiter::Parenthesis, v, Span::CallSite);
            proof {
                let segs = seq!["leptos", "prelude", "IntoAttributeValue", "into_attribute_value"];
                assert(strs_view(segs) =~= seq!["leptos"@, "prelude"@, "IntoAttributeValue"@, "into_attribute_value"@]);
                assert(stream_view(args@) =~= seq![
                    Tok::Literal(crate::ast::ident::quoted(key.repr_view()), Span::CallSite),
                    Tok::Punct(',', Spacing::Alone, Span::CallSite),
                ] + leading_path(
                    seq!["leptos"@, "prelude"@, "IntoAttributeValue"@, "into_attribute_value"@],
                    Span::CallSite,
                ) + grouped(Delimiter::Parenthesis, vv, Span::CallSite));
            }
            push_method_call(out, ident("attr", Span::CallSite), args);
        } else {
            let k = key.to_snake_ident();
            push_method_call(out, k, v);
        }
    }
}

/// Appends a spread on an element: `.add_any_attr(expr)`, the method spanned
/// at the `..`.
pub fn xml_spread_tokens(attr: &SpreadAttr, out: &mut Vec<TokenTree>)
    ensures
        stream_view(final(out)@) == stream_view(old(out)@) + method_call(
            Tok::Ident("add_any_attr"@, attr.spec_dotdot()),
            stream_view(attr.spec_rest()),
        ),
{
    push_method_call(out, ident("add_any_attr", attr.dotdot()), clone_stream(attr.expr()));
}

/// Appends a key-value attribute on a component: `.key(value)`, all spanned
/// at the attribute.
pub fn component_kv_attribute_tokens(attr: &KvAttr, out: &mut Vec<TokenTree>, diags: &mut Vec<Diagnostic>)
    ensures
        stream_view(final(out)@) == stream_view(old(out)@) + seq![
            Tok::Punct('.', Spacing::Alone, attr.spec_span()),
            Tok::Ident(snake_text(attr.spec_key().repr_view()), attr.spec_key().spec_span()),
        ] + grouped(Delimiter::Parenthesis, value_tokens(attr.spec_value()), attr.spec_span()),
        extends(old(diags)@, final(diags)@),
        reports(final(diags)@) == reports(old(diags)@) + value_reports(attr.spec_value()),
{
    let ghost s0 = stream_view(out@);
    let sp = attr.span();
    let key = attr.key().to_snake_ident();
    let mut v: Vec<TokenTree> = empty_stream();
    attr.value().to_tokens(&mut v, diags);
    push_punct(out, '.', Spacing::Alone, sp);
    push_tree(out, key);
    push_group(out, Delimiter::Parenthesis, v, sp);
    assert(stream_view(out@) =~= s0 + seq![
        Tok::Punct('.', Spacing::Alone, attr.spec_span()),
        Tok::Ident(snake_text(attr.spec_key().repr_view()), attr.spec_key().spec_span()),
    ] + grouped(Delimiter::Parenthesis, value_tokens(attr.spec_value()), attr.spec_span()));
}

/// The expression of a spread on a component, added with the other
/// directives through `.add_any_attr(..)`.
pub fn component_spread_tokens(attr: &SpreadAttr) -> (r: Vec<TokenTree>)
    ensures
        stream_view(r@) == stream_view(attr.spec_rest()),
{
    clone_stream(attr.expr())
}

/// The path of an event: `::leptos::tachys::html::event::name`.
pub open spec fn event_path(ev: Tok) -> Seq<Tok> {
    leading_path(seq!["leptos"@, "tachys"@, "html"@, "event"@], Span::CallSite) + colon2(Span::CallSite)
        + seq![ev]
}

/// The event name of an `on:` directive: the key as an identifier; a string
/// key is reported and replaced by `invalid_event`.
pub open spec fn event_name(key: KebabIdentOrStr) -> Tok {
    match key {
        KebabIdentOrStr::KebabIdent(i) => Tok::Ident(snake_text(i.repr_view()), i.spec_span()),
        KebabIdentOrStr::Str(s) => Tok::Ident("invalid_event"@, s.spec_span()),
    }
}

/// The expansion of the event of an `on:` directive.
pub open spec fn event_listener_path(d: Directive) -> Seq<Tok> {
    let ev = event_path(event_name(d.key));
    match d.modifier {
        Some(m) => if m is Ident && m.text() == "undelegated"@ {
            event_path(tree_view(m)).drop_last() + seq![tree_view(m)] + grouped(
                Delimiter::Parenthesis,
                ev,
                Span::CallSite,
            )
        } else {
            ev
        },
        None => ev,
    }
}

fn push_event_path(out: &mut Vec<TokenTree>, ev: TokenTree)
    ensures
        stream_view(final(out)@) == stream_view(old(out)@) + event_path(tree_view(ev)),
{
    let ghost s0 = stream_view(out@);
    let ghost evv = tree_view(ev);
    push_path(out, &["leptos", "tachys", "html", "event"], Span::CallSite);
    push_colon2(out, Span::CallSite);
    push_tree(out, ev);
    proof {
        let segs = seq!["leptos", "tachys", "html", "event"];
        assert(strs_view(segs) =~= seq!["leptos"@, "tachys"@, "html"@, "event"@]);
    }
    assert(stream_view(out@) =~= s0 + event_path(evv));
}

/// Appends the event of an `on:` directive: `::leptos::tachys::html::event::name`,
/// or `::leptos::tachys::html::event::undelegated(..)` around it with the
/// `:undelegated` modifier. Any other modifier, or a string key, is
/// reported.
pub fn event_listener_event_path(d: &Directive, out: &mut Vec<TokenTree>, diags: &mut Vec<Diagnostic>)
    ensures
        stream_view(final(out)@) == stream_view(old(out)@) + event_listener_path(*d),
        extends(old(diags)@, final(diags)@),
        (d.key is KebabIdent && (d.modifier matches Some(m) ==> (m is Ident && m.text() == "undelegated"@)))
            ==> final(diags)@ == old(diags)@,
        reports(final(diags)@) == reports(old(diags)@) + event_reports(*d),
{
    let ghost r0 = reports(diags@);
    let ev = match &d.key {
        KebabIdentOrStr::KebabIdent(i) => i.to_snake_ident(),
        KebabIdentOrStr::Str(s) => {
            diags.push(Diagnostic::new(s.span(), "event type must be an identifier"));
            ident("invalid_event", s.span())
        },
    };
    match &d.modifier {
        Some(m) => {
            let is_undelegated = match m {
                TokenTree::Ident { text, .. } => text_is(text, "undelegated"),
                _ => false,
            };
            if is_undelegated {
                let ghost s0 = stream_view(out@);
                let mut inner: Vec<TokenTree> = empty_stream();
                push_event_path(&mut inner, ev);
                push_path(out, &["leptos", "tachys", "html", "event"], Span::CallSite);
                push_colon2(out, Span::CallSite);
                push_tree(out, m.deep_clone());
                push_group(out, Delimiter::Parenthesis, inner, Span::CallSite);
                proof {
                    let segs = seq!["leptos", "tachys", "html", "event"];
                    assert(strs_view(segs) =~= seq!["leptos"@, "tachys"@, "html"@, "event"@]);
                    assert(event_path(tree_view(*m)).drop_last() =~= leading_path(seq!["leptos"@, "tachys"@, "html"@, "event"@], Span::CallSite) + colon2(Span::CallSite));
                }
                assert(stream_view(out@) =~= s0 + event_listener_path(*d));
            } else {
                diags.push(Diagnostic::with_help(m.span(), "unknown modifier", ":undelegated is the only known modifier"));
                push_event_path(out, ev);
            }
        },
        None => {
            push_event_path(out, ev);
        },
    }
    assert(reports(diags@) =~= r0 + event_reports(*d));
}

/// The value of a `use:` directive: `().into()` spanned at the function, or
/// `::std::convert::Into::into(value)`.
pub open spec fn use_value_tokens(d: Directive) -> Seq<Tok> {
    let sp = d.key.spec_span();
    match d.value {
        None => grouped(Delimiter::Parenthesis, Seq::empty(), sp) + seq![
            Tok::Punct('.', Spacing::Alone, sp),
            Tok::Ident("into"@, sp),
        ] + grouped(Delimiter::Parenthesis, Seq::empty(), sp),
        Some(v) => leading_path(seq!["std"@, "convert"@, "Into"@, "into"@], Span::CallSite)
            + grouped(Delimiter::Parenthesis, value_tokens(v), Span::CallSite),
    }
}

/// The function and value of a `use:directive={value}`:
/// `use:d` gives `(d, ().into())`, `use:d={v}` gives `(d, v.into())`.
pub fn use_directive_fn_value(u: &Directive, diags: &mut Vec<Diagnostic>) -> (r: (TokenTree, Vec<TokenTree>))
    ensures
        tree_view(r.0) == key_ident(u.key),
        r.0.spec_span() == u.key.spec_span(),
        stream_view(r.1@) == use_value_tokens(*u),
        extends(old(diags)@, final(diags)@),
        reports(final(diags)@) == reports(old(diags)@) + use_reports(*u),
{
    let ghost r0 = reports(diags@);
    let directive_fn = u.key.to_ident_or_emit(diags);
    emit_error_if_modifier(u.modifier.as_ref(), diags);
    let sp = directive_fn.span();
    let mut v: Vec<TokenTree> = empty_stream();
    match &u.value {
        None => {
            push_group(&mut v, Delimiter::Parenthesis, empty_stream(), sp);
            push_punct(&mut v, '.', Spacing::Alone, sp);
            push_ident(&mut v, "into", sp);
            push_group(&mut v, Delimiter::Parenthesis, empty_stream(), sp);
        },
        Some(val) => {
            push_path(&mut v, &["std", "convert", "Into", "into"], Span::CallSite);
            let mut inner: Vec<TokenTree> = empty_stream();
            val.to_tokens(&mut inner, diags);
            push_group(&mut v, Delimiter::Parenthesis, inner, Span::CallSite);
            proof {
                let segs = seq!["std", "convert", "Into", "into"];
                assert(strs_view(segs) =~= seq!["std"@, "convert"@, "Into"@, "into"@]);
            }
        },
    }
    assert(stream_view(v@) =~= use_value_tokens(*u));
    assert(reports(diags@) =~= r0 + use_reports(*u));
    (directive_fn, v)
}

/// Appends `let name = name.clone();` for a `clone:name` directive; a
/// modifier or a value on it is reported.
pub fn component_clone_tokens(dir: &Directive, out: &mut Vec<TokenTree>, diags: &mut Vec<Diagnostic>)
    ensures
        stream_view(final(out)@) == stream_view(old(out)@) + seq![
            Tok::Ident("let"@, Span::CallSite),
            key_ident(dir.key),
            Tok::Punct('=', Spacing::Alone, Span::CallSite),
            key_ident(dir.key),
            Tok::Punct('.', Spacing::Alone, Span::CallSite),
            Tok::Ident("clone"@, Span::CallSite),
            Tok::Group(Delimiter::Parenthesis, Seq::empty(), Span::CallSite, Span::CallSite),
            Tok::Punct(';', Spacing::Alone, Span::CallSite),
        ],
        extends(old(diags)@, final(diags)@),
        reports(final(diags)@) == reports(old(diags)@) + clone_reports(*dir),
{
    let ghost s0 = stream_view(out@);
    let ghost r0 = reports(diags@);
    let to_clone = dir.key.to_ident_or_emit(diags);
    emit_error_if_modifier(dir.modifier.as_ref(), diags);
    if let Some(value) = &dir.value {
        diags.push(Diagnostic::new(value.span(), "`clone:` does not take any values"));
    }
    assert(reports(diags@) =~= r0 + clone_reports(*dir));
    push_ident(out, "let", Span::CallSite);
    push_tree(out, to_clone.deep_clone());
    push_punct(out, '=', Spacing::Alone, Span::CallSite);
    push_tree(out, to_clone);
    push_punct(out, '.', Spacing::Alone, Span::CallSite);
    push_ident(out, "clone", Span::CallSite);
    push_group(out, Delimiter::Parenthesis, empty_stream(), Span::CallSite);
    push_punct(out, ';', Spacing::Alone, Span::CallSite);
    assert(stream_view(out@) =~= s0 + seq![
        Tok::Ident("let"@, Span::CallSite),
        key_ident(dir.key),
        Tok::Punct('=', Spacing::Alone, Span::CallSite),
        key_ident(dir.key),
        Tok::Punct('.', Spacing::Alone, Span::CallSite),
        Tok::Ident("clone"@, Span::CallSite),
        Tok::Group(Delimiter::Parenthesis, Seq::empty(), Span::CallSite, Span::CallSite),
        Tok::Punct(';', Spacing::Alone, Span::CallSite),
    ]);
}

} // verus!

verus! {

/// `.class((name, true))` for each class shorthand, in order.
pub open spec fn class_methods(sels: Seq<SelectorShorthand>) -> Seq<Tok>
    decreases sels.len(),
{
    if sels.len() == 0 {
        Seq::empty()
    } else {
        let rest = class_methods(sels.drop_last());
        let s = sels.last();
        if s is Class {
            rest + method_call(
                Tok::Ident("class"@, s.prefix_span()),
                grouped(
                    Delimiter::Parenthesis,
                    seq![
                        str_colored(s.spec_ident()),
                        Tok::Punct(',', Spacing::Alone, Span::CallSite),
                        Tok::Ident("true"@, Span::CallSite),
                    ],
                    Span::CallSite,
                ),
            )
        } else {
            rest
        }
    }
}

/// `.id(name)` for each id shorthand, in order.
pub open spec fn id_methods(sels: Seq<SelectorShorthand>) -> Seq<Tok>
    decreases sels.len(),
{
    if sels.len() == 0 {
        Seq::empty()
    } else {
        let rest = id_methods(sels.drop_last());
        let s = sels.last();
        if s is Id {
            rest + method_call(Tok::Ident("id"@, s.prefix_span()), seq![str_colored(s.spec_ident())])
        } else {
            rest
        }
    }
}

/// Appends the class and id shorthands of an element: a `.class((name,
/// true))` call for each class, then an `.id(name)` call for each id, each
/// in the order written.
pub fn xml_selectors_tokens(selectors: &SelectorShorthands, out: &mut Vec<TokenTree>)
    ensures
        stream_view(final(out)@) == stream_view(old(out)@) + class_methods(selectors.0@) + id_methods(selectors.0@),
{
    let ghost s0 = stream_view(out@);
    let v = selectors.iter();
    let mut i: usize = 0;
    while i < v.len()
        invariant
            i <= v@.len(),
            v@ == selectors.0@,
            stream_view(out@) == s0 + class_methods(v@.subrange(0, i as int)),
        decreases v.len() - i,
    {
        let ghost before = stream_view(out@);
        let ghost sub = v@.subrange(0, i + 1);
        assert(sub.drop_last() =~= v@.subrange(0, i as int));
        match &v[i] {
            SelectorShorthand::Class { .. } => {
                let sel = &v[i];
                let psp = sel.prefix_symbol_span();
                let name = sel.ident().to_str_colored();
                let mut args: Vec<TokenTree> = empty_stream();
                push_tree(&mut args, name);
                push_punct(&mut args, ',', Spacing::Alone, Span::CallSite);
                push_ident(&mut args, "true", Span::CallSite);
                let ghost argv = seq![
                    str_colored(sel.spec_ident()),
                    Tok::Punct(',', Spacing::Alone, Span::CallSite),
                    Tok::Ident("true"@, Span::CallSite),
                ];
                assert(stream_view(args@) =~= argv);
                let mut outer: Vec<TokenTree> = empty_stream();
                push_group(&mut outer, Delimiter::Parenthesis, args, Span::CallSite);
                assert(stream_view(outer@) =~= grouped(Delimiter::Parenthesis, argv, Span::CallSite));
                push_method_call(out, ident("class", psp), outer);
                assert(sub.last() == *sel);
                assert(stream_view(out@) =~= before + method_call(
                    Tok::Ident("class"@, sel.prefix_span()),
                    grouped(Delimiter::Parenthesis, argv, Span::CallSite),
                ));
            },
            SelectorShorthand::Id { .. } => {},
        }
        i = i + 1;
        assert(stream_view(out@) =~= s0 + class_methods(sub));
    }
    assert(v@.subrange(0, i as int) =~= v@);
    let ghost s1 = stream_view(out@);
    let mut i: usize = 0;
    while i < v.len()
        invariant
            i <= v@.len(),
            v@ == selectors.0@,
            stream_view(out@) == s1 + id_methods(v@.subrange(0, i as int)),
        decreases v.len() - i,
    {
        let ghost sub = v@.subrange(0, i + 1);
        assert(sub.drop_last() =~= v@.subrange(0, i as int));
        match &v[i] {
            SelectorShorthand::Id { .. } => {
                let sel = &v[i];
                let psp = sel.prefix_symbol_span();
                let name = sel.ident().to_str_colored();
                let mut args: Vec<TokenTree> = empty_stream();
                push_tree(&mut args, name);
                push_method_call(out, ident("id", psp), args);
            },
            SelectorShorthand::Class { .. } => {},
        }
        i = i + 1;
        assert(stream_view(out@) =~= s1 + id_methods(sub));
    }
    assert(v@.subrange(0, i as int) =~= v@);
}

/// The name of a directive, as written.
pub open spec fn dir_name(d: Directive) -> Seq<char> {
    d.dir.text()
}

/// The expansion of a directive on an HTML-like element; `None` where the
/// directive is not supported there (`attr:`, `clone:`, unknown ones).
pub open spec fn xml_directive_expansion(d: Directive) -> Option<Seq<Tok>> {
    let name = dir_name(d);
    let comma = seq![Tok::Punct(',', Spacing::Alone, Span::CallSite)];
    if name == "class"@ || name == "style"@ {
        Some(method_call(tree_view(d.dir), grouped(Delimiter::Parenthesis, seq![key_lit_str(d.key)] + comma + opt_value_tokens(d.value), Span::CallSite)))
    } else if name == "prop"@ {
        Some(method_call(tree_view(d.dir), seq![key_lit_str(d.key)] + comma + opt_value_tokens(d.value)))
    } else if name == "on"@ {
        Some(method_call(tree_view(d.dir), event_listener_path(d) + comma + opt_value_tokens(d.value)))
    } else if name == "use"@ {
        Some(method_call(Tok::Ident("directive"@, d.dir.spec_span()), seq![key_ident(d.key)] + comma + use_value_tokens(d)))
    } else {
        None
    }
}

fn push_opt_value(out: &mut Vec<TokenTree>, v: &Option<Value>, diags: &mut Vec<Diagnostic>)
    ensures
        stream_view(final(out)@) == stream_view(old(out)@) + opt_value_tokens(*v),
        extends(old(diags)@, final(diags)@),
        reports(final(diags)@) == reports(old(diags)@) + opt_value_reports(*v),
{
    assert(reports(diags@) + Seq::<Report>::empty() =~= reports(diags@));
    match v {
        Some(val) => val.to_tokens(out, diags),
        None => {
            assert(stream_view(out@) =~= stream_view(out@) + Seq::<Tok>::empty());
        },
    }
}

fn is_dir(d: &Directive, name: &str) -> (r: bool)
    ensures
        r == (d.dir is Ident && dir_name(*d) == name@),
{
    match &d.dir {
        TokenTree::Ident { text, .. } => text_is(text, name),
        _ => false,
    }
}

/// Appends a directive on an HTML, SVG or MathML element or web component:
/// `.class((key, value))`, `.style((key, value))`, `.prop(key, value)`,
/// `.on(event, value)` or `.directive(function, value)`. `attr:` and
/// `clone:` are reported as not supported on elements, any other directive
/// as unknown; they expand to nothing.
pub fn xml_directive_tokens(directive: &Directive, out: &mut Vec<TokenTree>, diags: &mut Vec<Diagnostic>)
    requires
        directive.dir is Ident,
    ensures
        xml_directive_expansion(*directive) matches Some(t) ==> stream_view(final(out)@) == stream_view(old(out)@) + t,
        xml_directive_expansion(*directive) is None ==> stream_view(final(out)@) == stream_view(old(out)@)
            && final(diags)@.len() == old(diags)@.len() + 1,
        extends(old(diags)@, final(diags)@),
        reports(final(diags)@) == reports(old(diags)@) + xml_directive_reports(*directive),
{
    let d = directive;
    let ghost s0 = stream_view(out@);
    let ghost r0 = reports(diags@);
    if is_dir(d, "class") || is_dir(d, "style") {
        let key = d.key.to_lit_str();
        emit_error_if_modifier(d.modifier.as_ref(), diags);
        let mut args: Vec<TokenTree> = empty_stream();
        push_tree(&mut args, key);
        push_punct(&mut args, ',', Spacing::Alone, Span::CallSite);
        push_opt_value(&mut args, &d.value, diags);
        let mut outer: Vec<TokenTree> = empty_stream();
        push_group(&mut outer, Delimiter::Parenthesis, args, Span::CallSite);
        push_method_call(out, d.dir.deep_clone(), outer);
        proof {
            assert(stream_view(out@) =~= s0 + xml_directive_expansion(*directive)->0);
        }
    } else if is_dir(d, "prop") {
        let key = d.key.to_lit_str();
        emit_error_if_modifier(d.modifier.as_ref(), diags);
        let mut args: Vec<TokenTree> = empty_stream();
        push_tree(&mut args, key);
        push_punct(&mut args, ',', Spacing::Alone, Span::CallSite);
        push_opt_value(&mut args, &d.value, diags);
        push_method_call(out, d.dir.deep_clone(), args);
        proof {
            assert(stream_view(out@) =~= s0 + xml_directive_expansion(*directive)->0);
        }
    } else if is_dir(d, "on") {
        let mut args: Vec<TokenTree> = empty_stream();
        event_listener_event_path(d, &mut args, diags);
        push_punct(&mut args, ',', Spacing::Alone, Span::CallSite);
        push_opt_value(&mut args, &d.value, diags);
        push_method_call(out, d.dir.deep_clone(), args);
        proof {
            assert(stream_view(out@) =~= s0 + xml_directive_expansion(*directive)->0);
        }
    } else if is_dir(d, "use") {
        let (fn_name, value) = use_directive_fn_value(d, diags);
        let mut args: Vec<TokenTree> = empty_stream();
        push_tree(&mut args, fn_name);
        push_punct(&mut args, ',', Spacing::Alone, Span::CallSite);
        push_stream(&mut args, value);
        push_method_call(out, ident("directive", d.dir.span()), args);
        proof {
            assert(stream_view(out@) =~= s0 + xml_directive_expansion(*directive)->0);
        }
    } else if is_dir(d, "attr") || is_dir(d, "clone") {
        let mut msg = chars_of("`");
        let name = match &d.dir {
            TokenTree::Ident { text, .. } => crate::text::copy_chars(text),
            _ => Vec::new(),
        };
        let mut name = name;
        msg.append(&mut name);
        let mut tail = chars_of(":` is not supported on elements");
        msg.append(&mut tail);
        diags.push(Diagnostic { span: d.dir.span(), message: msg, help: None });
    } else {
        diags.push(Diagnostic::new(d.dir.span(), "unknown directive"));
    }
    assert(reports(diags@) =~= r0 + xml_directive_reports(*directive));
}

} // verus!

verus! {

/// The value of a directive, or the literal `true` if it has none.
pub open spec fn value_or_true(v: Option<Value>) -> Seq<Tok> {
    match v {
        Some(v) => value_tokens(v),
        None => seq![Tok::Ident("true"@, Span::CallSite)],
    }
}

/// `::leptos::tachys::html::` and more segments, at the call site.
pub open spec fn html_path(segs: Seq<Seq<char>>) -> Seq<Tok> {
    leading_path(seq!["leptos"@, "tachys"@, "html"@] + segs, Span::CallSite)
}

/// The text of a key's string value: the ident's repr, or the contents of
/// the string literal.
pub open spec fn key_value_text(k: KebabIdentOrStr) -> Seq<char> {
    match k {
        KebabIdentOrStr::KebabIdent(i) => i.repr_view(),
        KebabIdentOrStr::Str(s) => if syn_lit_kind(s.text()) == LitKind::Str {
            syn_str_value(s.text())
        } else {
            Seq::empty()
        },
    }
}

pub fn key_value_chars(k: &KebabIdentOrStr) -> (r: Vec<char>)
    ensures
        r@ == key_value_text(*k),
{
    match k {
        KebabIdentOrStr::KebabIdent(i) => crate::text::copy_chars(i.repr_chars()),
        KebabIdentOrStr::Str(s) => match s {
            TokenTree::Literal { text, .. } => if literal_kind(text) == LitKind::Str {
                str_literal_value(text)
            } else {
                Vec::new()
            },
            _ => {
                non_literal_key_value(s)
            },
        },
    }
}

/// The text of a token that is no literal is not that of a string literal.
fn non_literal_key_value(s: &TokenTree) -> (r: Vec<char>)
    requires
        !(s is Literal),
    ensures
        r@ == (if syn_lit_kind(s.text()) == LitKind::Str { syn_str_value(s.text()) } else { Seq::<char>::empty() }),
{
    let text: Vec<char> = match s {
        TokenTree::Ident { text, .. } => crate::text::copy_chars(text),
        TokenTree::Punct { ch, .. } => {
            let mut t: Vec<char> = Vec::new();
            t.push(*ch);
            t
        },
        _ => Vec::new(),
    };
    assert(text@ == s.text()) by {
        if s is Punct {
            assert(text@ =~= s.text());
        }
    }
    if literal_kind(&text) == LitKind::Str {
        str_literal_value(&text)
    } else {
        Vec::new()
    }
}

/// What a directive on a component is added as, in
/// `.add_any_attr((..))`; `None` for an unknown directive (and `clone:`,
/// which is handled apart).
pub open spec fn any_attr_path(d: Directive) -> Option<Seq<Tok>> {
    let name = dir_name(d);
    let comma = seq![Tok::Punct(',', Spacing::Alone, Span::CallSite)];
    if name == "class"@ || name == "style"@ {
        Some(html_path(seq![name]) + colon2(Span::CallSite) + seq![tree_view(d.dir)] + grouped(
            Delimiter::Parenthesis,
            grouped(
                Delimiter::Parenthesis,
                seq![Tok::Literal(key_lit_text(d.key), Span::CallSite)] + comma + value_or_true(d.value),
                Span::CallSite,
            ),
            Span::CallSite,
        ))
    } else if name == "attr"@ {
        let kind = spec_attribute_kind(key_value_text(d.key));
        if kind == AttributeKind::Class || kind == AttributeKind::Style {
            Some(html_path(seq![spec_unraw(key_ident_text(d.key))]) + colon2(Span::CallSite) + seq![
                key_ident(d.key),
            ] + grouped(Delimiter::Parenthesis, value_or_true(d.value), Span::CallSite))
        } else if kind == AttributeKind::Custom {
            Some(html_path(seq!["attribute"@, "custom"@, "custom_attribute"@]) + grouped(
                Delimiter::Parenthesis,
                seq![Tok::Literal(key_lit_text(d.key), Span::CallSite)] + comma + value_or_true(d.value),
                Span::CallSite,
            ))
        } else {
            Some(html_path(seq!["attribute"@]) + colon2(Span::CallSite) + seq![key_ident(d.key)]
                + grouped(Delimiter::Parenthesis, value_or_true(d.value), Span::CallSite))
        }
    } else if name == "prop"@ {
        Some(html_path(seq!["property"@, "prop"@]) + grouped(
            Delimiter::Parenthesis,
            seq![Tok::Literal(key_lit_text(d.key), Span::CallSite)] + comma + value_or_true(d.value),
            Span::CallSite,
        ))
    } else if name == "on"@ {
        Some(html_path(seq!["event"@, "on"@]) + grouped(
            Delimiter::Parenthesis,
            event_listener_path(d) + comma + opt_value_tokens(d.value),
            Span::CallSite,
        ))
    } else if name == "use"@ {
        Some(html_path(seq!["directive"@]) + colon2(Span::CallSite) + seq![
            Tok::Ident("directive"@, d.dir.spec_span()),
        ] + grouped(Delimiter::Parenthesis, seq![key_ident(d.key)] + comma + use_value_tokens(d), Span::CallSite))
    } else {
        None
    }
}

fn push_value_or_true(out: &mut Vec<TokenTree>, v: &Option<Value>, diags: &mut Vec<Diagnostic>)
    ensures
        stream_view(final(out)@) == stream_view(old(out)@) + value_or_true(*v),
        extends(old(diags)@, final(diags)@),
        reports(final(diags)@) == reports(old(diags)@) + opt_value_reports(*v),
{
    assert(reports(diags@) + Seq::<Report>::empty() =~= reports(diags@));
    match v {
        Some(val) => val.to_tokens(out, diags),
        None => {
            let ghost s0 = stream_view(out@);
            push_ident(out, "true", Span::CallSite);
            assert(stream_view(out@) =~= s0 + value_or_true(*v));
        },
    }
}

/// Appends `::leptos::tachys::html::` and `segs`.
fn push_html_path(out: &mut Vec<TokenTree>, segs: &[&str])
    ensures
        stream_view(final(out)@) == stream_view(old(out)@) + html_path(strs_view(segs@)),
{
    let ghost s0 = stream_view(out@);
    push_path(out, &["leptos", "tachys", "html"], Span::CallSite);
    let ghost s1 = stream_view(out@);
    push_path(out, segs, Span::CallSite);
    proof {
        let head = seq!["leptos", "tachys", "html"];
        assert(strs_view(head) =~= seq!["leptos"@, "tachys"@, "html"@]);
        lemma_leading_path_concat(strs_view(head), strs_view(segs@), Span::CallSite);
    }
    assert(stream_view(out@) =~= s0 + html_path(strs_view(segs@)));
}

/// Appends `::leptos::tachys::html::seg`.
fn push_html_path1(out: &mut Vec<TokenTree>, seg: &str)
    ensures
        stream_view(final(out)@) == stream_view(old(out)@) + html_path(seq![seg@]),
{
    let ghost s0 = stream_view(out@);
    push_path(out, &["leptos", "tachys", "html"], Span::CallSite);
    push_colon2(out, Span::CallSite);
    push_ident(out, seg, Span::CallSite);
    proof {
        let head = seq!["leptos", "tachys", "html"];
        assert(strs_view(head) =~= seq!["leptos"@, "tachys"@, "html"@]);
        assert((seq!["leptos"@, "tachys"@, "html"@] + seq![seg@]).drop_last() =~= seq!["leptos"@, "tachys"@, "html"@]);
    }
    assert(stream_view(out@) =~= s0 + html_path(seq![seg@]));
}

/// A path of `a` then `b` is the path of `a` followed by the path of `b`.
pub proof fn lemma_leading_path_concat(a: Seq<Seq<char>>, b: Seq<Seq<char>>, sp: Span)
    ensures
        leading_path(a + b, sp) == leading_path(a, sp) + leading_path(b, sp),
    decreases b.len(),
{
    if b.len() == 0 {
        assert(a + b =~= a);
        assert(leading_path(b, sp) =~= Seq::<Tok>::empty());
        assert(leading_path(a, sp) + Seq::<Tok>::empty() =~= leading_path(a, sp));
    } else {
        lemma_leading_path_concat(a, b.drop_last(), sp);
        assert((a + b).drop_last() =~= a + b.drop_last());
        assert((a + b).last() == b.last());
        assert(leading_path(a + b, sp) =~= leading_path(a, sp) + leading_path(b, sp));
    }
}

/// Appends what a directive on a component is added as, in
/// `.add_any_attr((..))`: the path of a leptos attribute function called
/// with the key and value. Returns `false`, appending nothing, for an unknown
/// directive.
#[verifier::spinoff_prover]
#[verifier::rlimit(40)]
pub fn directive_to_any_attr_path(directive: &Directive, out: &mut Vec<TokenTree>, diags: &mut Vec<Diagnostic>) -> (r: bool)
    requires
        directive.dir is Ident,
    ensures
        r == (any_attr_path(*directive) is Some),
        any_attr_path(*directive) matches Some(t) ==> stream_view(final(out)@) == stream_view(old(out)@) + t,
        !r ==> stream_view(final(out)@) == stream_view(old(out)@) && final(diags)@ == old(diags)@,
        extends(old(diags)@, final(diags)@),
        reports(final(diags)@) == reports(old(diags)@) + any_attr_reports(*directive),
{
    let d = directive;
    let ghost s0 = stream_view(out@);
    let ghost r0 = reports(diags@);
    assert(r0 + Seq::<Report>::empty() =~= r0);
    if is_dir(d, "class") || is_dir(d, "style") {
        let key = d.key.to_unspanned_string();
        let name = match &d.dir {
            TokenTree::Ident { text, .. } => crate::text::copy_chars(text),
            _ => Vec::new(),
        };
        let mut inner: Vec<TokenTree> = empty_stream();
        push_tree(&mut inner, key);
        push_punct(&mut inner, ',', Spacing::Alone, Span::CallSite);
        push_value_or_true(&mut inner, &d.value, diags);
        let mut args: Vec<TokenTree> = empty_stream();
        push_group(&mut args, Delimiter::Parenthesis, inner, Span::CallSite);
        push_path(out, &["leptos", "tachys", "html"], Span::CallSite);
        let ghost s1 = stream_view(out@);
        push_colon2(out, Span::CallSite);
        push_tree(out, TokenTree::Ident { text: name, span: Span::CallSite });
        push_colon2(out, Span::CallSite);
        push_tree(out, d.dir.deep_clone());
        push_group(out, Delimiter::Parenthesis, args, Span::CallSite);
        proof {
            let head = seq!["leptos", "tachys", "html"];
            assert(strs_view(head) =~= seq!["leptos"@, "tachys"@, "html"@]);
            assert((seq!["leptos"@, "tachys"@, "html"@] + seq![dir_name(*d)]).drop_last() =~= seq!["leptos"@, "tachys"@, "html"@]);
            assert(stream_view(out@) =~= s0 + any_attr_path(*directive)->0);
        }
        assert(reports(diags@) =~= r0 + any_attr_reports(*directive));
        true
    } else if is_dir(d, "attr") {
        let kv = key_value_chars(&d.key);
        let kind = AttributeKind::from_chars(&kv);
        if kind.is_class_or_style() {
            let cs = d.key.to_ident_or_emit(diags);
            let unspanned = match &cs {
                TokenTree::Ident { text, .. } => crate::expand::utils::unraw(text),
                _ => Vec::new(),
            };
            push_path(out, &["leptos", "tachys", "html"], Span::CallSite);
            push_colon2(out, Span::CallSite);
            push_tree(out, TokenTree::Ident { text: unspanned, span: Span::CallSite });
            push_colon2(out, Span::CallSite);
            push_tree(out, cs);
            let mut args: Vec<TokenTree> = empty_stream();
            push_value_or_true(&mut args, &d.value, diags);
            push_group(out, Delimiter::Parenthesis, args, Span::CallSite);
            proof {
                let head = seq!["leptos", "tachys", "html"];
                assert(strs_view(head) =~= seq!["leptos"@, "tachys"@, "html"@]);
                assert((seq!["leptos"@, "tachys"@, "html"@] + seq![spec_unraw(key_ident_text(d.key))]).drop_last() =~= seq!["leptos"@, "tachys"@, "html"@]);
                assert(stream_view(out@) =~= s0 + any_attr_path(*directive)->0);
            }
        } else if kind.is_custom() {
            let name = d.key.to_unspanned_string();
            let mut args: Vec<TokenTree> = empty_stream();
            push_tree(&mut args, name);
            push_punct(&mut args, ',', Spacing::Alone, Span::CallSite);
            push_value_or_true(&mut args, &d.value, diags);
            push_html_path(out, &["attribute", "custom", "custom_attribute"]);
            push_group(out, Delimiter::Parenthesis, args, Span::CallSite);
            proof {
                let segs = seq!["attribute", "custom", "custom_attribute"];
                assert(strs_view(segs) =~= seq!["attribute"@, "custom"@, "custom_attribute"@]);
                assert(stream_view(out@) =~= s0 + any_attr_path(*directive)->0);
            }
        } else {
            let name = d.key.to_ident_or_emit(diags);
            push_html_path1(out, "attribute");
            push_colon2(out, Span::CallSite);
            push_tree(out, name);
            let mut args: Vec<TokenTree> = empty_stream();
            push_value_or_true(&mut args, &d.value, diags);
            push_group(out, Delimiter::Parenthesis, args, Span::CallSite);
            proof {
                let segs = seq!["attribute"];
                assert(strs_view(segs) =~= seq!["attribute"@]);
                assert(stream_view(out@) =~= s0 + any_attr_path(*directive)->0);
            }
        }
        assert(reports(diags@) =~= r0 + any_attr_reports(*directive));
        true
    } else if is_dir(d, "prop") {
        let key = d.key.to_unspanned_string();
        let mut args: Vec<TokenTree> = empty_stream();
        push_tree(&mut args, key);
        push_punct(&mut args, ',', Spacing::Alone, Span::CallSite);
        push_value_or_true(&mut args, &d.value, diags);
        push_html_path(out, &["property", "prop"]);
        push_group(out, Delimiter::Parenthesis, args, Span::CallSite);
        proof {
            let segs = seq!["property", "prop"];
            assert(strs_view(segs) =~= seq!["property"@, "prop"@]);
            assert(stream_view(out@) =~= s0 + any_attr_path(*directive)->0);
        }
        assert(reports(diags@) =~= r0 + any_attr_reports(*directive));
        true
    } else if is_dir(d, "on") {
        let mut args: Vec<TokenTree> = empty_stream();
        event_listener_event_path(d, &mut args, diags);
        push_punct(&mut args, ',', Spacing::Alone, Span::CallSite);
        push_opt_value(&mut args, &d.value, diags);
        push_html_path(out, &["event", "on"]);
        push_group(out, Delimiter::Parenthesis, args, Span::CallSite);
        proof {
            let segs = seq!["event", "on"];
            assert(strs_view(segs) =~= seq!["event"@, "on"@]);
            assert(stream_view(out@) =~= s0 + any_attr_path(*directive)->0);
        }
        assert(reports(diags@) =~= r0 + any_attr_reports(*directive));
        true
    } else if is_dir(d, "use") {
        let (fn_name, value) = use_directive_fn_value(d, diags);
        let mut args: Vec<TokenTree> = empty_stream();
        push_tree(&mut args, fn_name);
        push_punct(&mut args, ',', Spacing::Alone, Span::CallSite);
        push_stream(&mut args, value);
        push_html_path1(out, "directive");
        push_colon2(out, Span::CallSite);
        push_ident(out, "directive", d.dir.span());
        push_group(out, Delimiter::Parenthesis, args, Span::CallSite);
        proof {
            let segs = seq!["directive"];
            assert(strs_view(segs) =~= seq!["directive"@]);
            assert(stream_view(out@) =~= s0 + any_attr_path(*directive)->0);
        }
        assert(reports(diags@) =~= r0 + any_attr_reports(*directive));
        true
    } else {
        false
    }
}

} // verus!

verus! {

/// Appends the children of a component:
/// `.children({ clones; ::leptos::children::ToChildren::to_children(move || fragment) })`,
/// or, with closure arguments, `.children({ clones; move |args| fragment })`.
/// The method and closure are spanned at the first child.
pub fn component_children_tokens(
    children: &Children,
    args: Option<&Vec<TokenTree>>,
    clones: &Vec<TokenTree>,
    out: &mut Vec<TokenTree>,
    diags: &mut Vec<Diagnostic>,
)
    ensures
        stream_view(final(out)@) == stream_view(old(out)@) + component_children(
            *children,
            match args {
                Some(a) => Some(a@),
                None => None,
            },
            stream_view(clones@),
        ),
        extends(old(diags)@, final(diags)@),
        reports(final(diags)@) == reports(old(diags)@) + nodes_reports(children.0@),
    decreases children, 2nat,
{
    let ghost s0 = stream_view(out@);
    let child_span = first_node_span(children);
    let frag_span = match args {
        Some(a) => if a.len() > 0 {
            crate::ast::value::span_of_stream(a)
        } else {
            Span::CallSite
        },
        None => Span::CallSite,
    };
    let ghost argv = match args {
        Some(a) => Some(a@),
        None => None,
    };
    assert(frag_span == fragment_span(argv));
    let mut fragment: Vec<TokenTree> = empty_stream();
    children_fragment_tokens(children, frag_span, &mut fragment, diags);
    let ghost fv = stream_view(fragment@);
    let mut body: Vec<TokenTree> = clone_stream(clones);
    match args {
        Some(a) => {
            push_ident(&mut body, "move", frag_span);
            push_stream(&mut body, clone_stream(a));
            push_stream(&mut body, fragment);
            assert(stream_view(body@) =~= stream_view(clones@) + (seq![Tok::Ident("move"@, frag_span)] + stream_view(a@) + fv));
        },
        None => {
            let mut closure: Vec<TokenTree> = empty_stream();
            push_ident(&mut closure, "move", child_span);
            push_punct(&mut closure, '|', Spacing::Joint, child_span);
            push_punct(&mut closure, '|', Spacing::Alone, child_span);
            push_stream(&mut closure, fragment);
            assert(stream_view(closure@) =~= move_closure(child_span) + fv);
            push_path(&mut body, &["leptos", "children", "ToChildren", "to_children"], Span::CallSite);
            push_group(&mut body, Delimiter::Parenthesis, closure, Span::CallSite);
            proof {
                let segs = seq!["leptos", "children", "ToChildren", "to_children"];
                assert(strs_view(segs) =~= seq!["leptos"@, "children"@, "ToChildren"@, "to_children"@]);
                assert(stream_view(body@) =~= stream_view(clones@) + (leading_path(
                    seq!["leptos"@, "children"@, "ToChildren"@, "to_children"@],
                    Span::CallSite,
                ) + grouped(Delimiter::Parenthesis, move_closure(child_span) + fv, Span::CallSite)));
            }
        },
    }
    let mut block: Vec<TokenTree> = empty_stream();
    let ghost bv = stream_view(body@);
    push_group(&mut block, Delimiter::Brace, body, Span::CallSite);
    push_method_call(out, ident("children", child_span), block);
    proof {
        assert(bv == stream_view(clones@) + match argv {
            Some(a) => seq![Tok::Ident("move"@, frag_span)] + stream_view(a) + fv,
            None => leading_path(seq!["leptos"@, "children"@, "ToChildren"@, "to_children"@], Span::CallSite)
                + grouped(Delimiter::Parenthesis, move_closure(child_span) + fv, Span::CallSite),
        });
    }
}

/// The span of the first child that is not a slot, or the call site.
fn first_node_span(children: &Children) -> (s: Span)
    ensures
        s == children_span(children.0@),
{
    let v = children.iter();
    let mut i: usize = 0;
    while i < v.len()
        invariant
            i <= v@.len(),
            v@ == children.0@,
            node_children(v@.subrange(0, i as int)).len() == 0,
        decreases v.len() - i,
    {
        proof {
            assert(v@.subrange(0, i + 1).drop_last() =~= v@.subrange(0, i as int));
        }
        match &v[i] {
            Child::Node(n) => {
                proof {
                    let a = v@.subrange(0, i as int);
                    let b = v@.subrange(i as int, v@.len() as int);
                    assert(v@ =~= a + b);
                    lemma_node_children_concat(a, b);
                    let b1 = b.subrange(0, 1);
                    let b2 = b.subrange(1, b.len() as int);
                    assert(b =~= b1 + b2);
                    lemma_node_children_concat(b1, b2);
                    assert(b1.drop_last() =~= Seq::<Child>::empty());
                    assert(node_children(Seq::<Child>::empty()) =~= Seq::<NodeChild>::empty());
                    assert(b1.last() == Child::Node(*n));
                    assert(node_children(b1) =~= seq![*n]);
                }
                return n.span();
            },
            Child::Slot(..) => {},
        }
        i = i + 1;
    }
    proof {
        assert(v@.subrange(0, i as int) =~= v@);
    }
    Span::CallSite
}


/// The names of the directives are different words.
proof fn lemma_directive_names_differ()
    ensures
        "class"@ != "style"@,
        "prop"@ != "class"@ && "prop"@ != "style"@ && "prop"@ != "attr"@,
        "on"@ != "class"@ && "on"@ != "style"@ && "on"@ != "prop"@ && "on"@ != "attr"@,
        "use"@ != "class"@ && "use"@ != "style"@ && "use"@ != "prop"@ && "use"@ != "attr"@ && "use"@ != "on"@,
{
    reveal_strlit("use");
    reveal_strlit("class");
    reveal_strlit("style");
    reveal_strlit("prop");
    reveal_strlit("on");
    reveal_strlit("attr");
    assert("class"@[0] != "style"@[0]);
    assert("prop"@[0] != "class"@[0] && "prop"@[0] != "style"@[0] && "prop"@[0] != "attr"@[0]);
    assert("on"@.len() != "class"@.len() && "on"@.len() != "style"@.len() && "on"@.len() != "prop"@.len()
        && "on"@.len() != "attr"@.len());
    assert("use"@[0] != "class"@[0] && "use"@[0] != "style"@[0] && "use"@[0] != "prop"@[0] && "use"@[0] != "attr"@[0]);
    assert("use"@.len() != "on"@.len());
}

/// On an HTML-like element, `class:` and `style:` call the method named as
/// the directive with one argument: a `(key, value)` tuple, the key as a
/// string literal, then a comma, then the value.
pub proof fn law_class_style_directive_takes_a_tuple(d: Directive)
    requires
        d.dir is Ident,
        dir_name(d) == "class"@ || dir_name(d) == "style"@,
    ensures
        xml_directive_expansion(d) matches Some(t) && t.len() == 3 && t[0] == Tok::Punct(
            '.',
            Spacing::Alone,
            Span::CallSite,
        ) && t[1] == tree_view(d.dir) && t[2] == Tok::Group(
            Delimiter::Parenthesis,
            seq![
                Tok::Group(
                    Delimiter::Parenthesis,
                    seq![key_lit_str(d.key), Tok::Punct(',', Spacing::Alone, Span::CallSite)] + opt_value_tokens(
                        d.value,
                    ),
                    Span::CallSite,
                    Span::CallSite,
                ),
            ],
            Span::CallSite,
            Span::CallSite,
        ),
{
    lemma_directive_names_differ();
    let t = xml_directive_expansion(d)->0;
    let comma = Tok::Punct(',', Spacing::Alone, Span::CallSite);
    let inner = seq![key_lit_str(d.key)] + seq![comma] + opt_value_tokens(d.value);
    assert(inner =~= seq![key_lit_str(d.key), comma] + opt_value_tokens(d.value));
    assert(t =~= seq![
        Tok::Punct('.', Spacing::Alone, Span::CallSite),
        tree_view(d.dir),
        Tok::Group(
            Delimiter::Parenthesis,
            seq![Tok::Group(Delimiter::Parenthesis, inner, Span::CallSite, Span::CallSite)],
            Span::CallSite,
            Span::CallSite,
        ),
    ]);
}

/// On an HTML-like element, `prop:` calls `.prop` with two arguments: the
/// key as a string literal, then the value.
pub proof fn law_prop_directive_takes_key_and_value(d: Directive)
    requires
        d.dir is Ident,
        dir_name(d) == "prop"@,
    ensures
        xml_directive_expansion(d) matches Some(t) && t.len() == 3 && t[0] == Tok::Punct(
            '.',
            Spacing::Alone,
            Span::CallSite,
        ) && t[1] == tree_view(d.dir) && t[2] == Tok::Group(
            Delimiter::Parenthesis,
            seq![key_lit_str(d.key), Tok::Punct(',', Spacing::Alone, Span::CallSite)] + opt_value_tokens(d.value),
            Span::CallSite,
            Span::CallSite,
        ),
{
    lemma_directive_names_differ();
    let t = xml_directive_expansion(d)->0;
    let comma = Tok::Punct(',', Spacing::Alone, Span::CallSite);
    let inner = seq![key_lit_str(d.key)] + seq![comma] + opt_value_tokens(d.value);
    assert(inner =~= seq![key_lit_str(d.key), comma] + opt_value_tokens(d.value));
    assert(t =~= seq![
        Tok::Punct('.', Spacing::Alone, Span::CallSite),
        tree_view(d.dir),
        Tok::Group(Delimiter::Parenthesis, inner, Span::CallSite, Span::CallSite),
    ]);
}

/// The event path of an `on:` directive is a path under
/// `::leptos::tachys::html::event::`.
pub proof fn lemma_event_listener_path_prefix(d: Directive)
    ensures
        begins_with(
            event_listener_path(d),
            leading_path(seq!["leptos"@, "tachys"@, "html"@, "event"@], Span::CallSite) + colon2(Span::CallSite),
        ),
{
    let pre = leading_path(seq!["leptos"@, "tachys"@, "html"@, "event"@], Span::CallSite) + colon2(Span::CallSite);
    let ev = event_path(event_name(d.key));
    assert(ev.subrange(0, pre.len() as int) =~= pre);
    match d.modifier {
        Some(m) => {
            let e2 = event_path(tree_view(m));
            assert(e2.drop_last() =~= pre);
            let l = e2.drop_last() + seq![tree_view(m)] + grouped(Delimiter::Parenthesis, ev, Span::CallSite);
            assert(l.subrange(0, pre.len() as int) =~= pre);
        },
        None => {},
    }
}

/// An `on:` directive on a component is added as
/// `::leptos::tachys::html::event::on(event, handler)`: the event path
/// first, a comma, then the handler value. Its arguments are the very ones
/// that an element's `.on(..)` gets for the same directive, and they start
/// with the event's path under `::leptos::tachys::html::event::`.
pub proof fn law_on_directive_event_then_handler(d: Directive)
    requires
        d.dir is Ident,
        dir_name(d) == "on"@,
    ensures
        ({
            let args = event_listener_path(d) + seq![Tok::Punct(',', Spacing::Alone, Span::CallSite)]
                + opt_value_tokens(d.value);
            let call = Tok::Group(Delimiter::Parenthesis, args, Span::CallSite, Span::CallSite);
            &&& any_attr_path(d) == Some(
                leading_path(seq!["leptos"@, "tachys"@, "html"@, "event"@, "on"@], Span::CallSite) + seq![call],
            )
            &&& xml_directive_expansion(d) == Some(
                seq![Tok::Punct('.', Spacing::Alone, Span::CallSite), tree_view(d.dir), call],
            )
            &&& begins_with(
                args,
                leading_path(seq!["leptos"@, "tachys"@, "html"@, "event"@], Span::CallSite) + colon2(Span::CallSite),
            )
        }),
{
    lemma_directive_names_differ();
    let args = event_listener_path(d) + seq![Tok::Punct(',', Spacing::Alone, Span::CallSite)]
        + opt_value_tokens(d.value);
    let pre = leading_path(seq!["leptos"@, "tachys"@, "html"@, "event"@], Span::CallSite) + colon2(Span::CallSite);
    lemma_event_listener_path_prefix(d);
    assert(args.subrange(0, pre.len() as int) =~= event_listener_path(d).subrange(0, pre.len() as int));
    assert(seq!["leptos"@, "tachys"@, "html"@] + seq!["event"@, "on"@] =~= seq![
        "leptos"@,
        "tachys"@,
        "html"@,
        "event"@,
        "on"@,
    ]);
    assert(any_attr_path(d)->0 =~= leading_path(seq!["leptos"@, "tachys"@, "html"@, "event"@, "on"@], Span::CallSite)
        + seq![Tok::Group(Delimiter::Parenthesis, args, Span::CallSite, Span::CallSite)]);
    assert(xml_directive_expansion(d)->0 =~= seq![
        Tok::Punct('.', Spacing::Alone, Span::CallSite),
        tree_view(d.dir),
        Tok::Group(Delimiter::Parenthesis, args, Span::CallSite, Span::CallSite),
    ]);
}


/// On a component, `class:` and `style:` are added as
/// `::leptos::tachys::html::class::class((key, value))` (or `style`): one
/// argument, a `(key, value)` tuple whose key is the key as a string
/// literal; with no value, the value is `true`.
pub proof fn law_component_class_style_takes_a_tuple(d: Directive)
    requires
        d.dir is Ident,
        dir_name(d) == "class"@ || dir_name(d) == "style"@,
    ensures
        ({
            let comma = Tok::Punct(',', Spacing::Alone, Span::CallSite);
            let key = Tok::Literal(key_lit_text(d.key), Span::CallSite);
            &&& any_attr_path(d) == Some(
                leading_path(seq!["leptos"@, "tachys"@, "html"@, dir_name(d)], Span::CallSite) + colon2(Span::CallSite)
                    + seq![
                    tree_view(d.dir),
                    Tok::Group(
                        Delimiter::Parenthesis,
                        seq![
                            Tok::Group(
                                Delimiter::Parenthesis,
                                seq![key, comma] + value_or_true(d.value),
                                Span::CallSite,
                                Span::CallSite,
                            ),
                        ],
                        Span::CallSite,
                        Span::CallSite,
                    ),
                ],
            )
        }),
{
    lemma_directive_names_differ();
    let comma = Tok::Punct(',', Spacing::Alone, Span::CallSite);
    let key = Tok::Literal(key_lit_text(d.key), Span::CallSite);
    let inner = seq![key] + seq![comma] + value_or_true(d.value);
    assert(inner =~= seq![key, comma] + value_or_true(d.value));
    assert(seq!["leptos"@, "tachys"@, "html"@] + seq![dir_name(d)] =~= seq!["leptos"@, "tachys"@, "html"@, dir_name(d)]);
    assert(any_attr_path(d)->0 =~= leading_path(seq!["leptos"@, "tachys"@, "html"@, dir_name(d)], Span::CallSite)
        + colon2(Span::CallSite) + seq![
        tree_view(d.dir),
        Tok::Group(
            Delimiter::Parenthesis,
            seq![Tok::Group(Delimiter::Parenthesis, inner, Span::CallSite, Span::CallSite)],
            Span::CallSite,
            Span::CallSite,
        ),
    ]);
}


/// A `use:` directive calls the directive function with the function
/// first, then the value: on an element as `.directive(f, value)`, on a
/// component as `::leptos::tachys::html::directive::directive(f, value)`,
/// with the same arguments.
pub proof fn law_use_directive_function_then_value(d: Directive)
    requires
        d.dir is Ident,
        dir_name(d) == "use"@,
    ensures
        ({
            let args = seq![key_ident(d.key), Tok::Punct(',', Spacing::Alone, Span::CallSite)] + use_value_tokens(d);
            let call = Tok::Group(Delimiter::Parenthesis, args, Span::CallSite, Span::CallSite);
            &&& xml_directive_expansion(d) == Some(
                seq![
                    Tok::Punct('.', Spacing::Alone, Span::CallSite),
                    Tok::Ident("directive"@, d.dir.spec_span()),
                    call,
                ],
            )
            &&& any_attr_path(d) == Some(
                leading_path(seq!["leptos"@, "tachys"@, "html"@, "directive"@], Span::CallSite) + colon2(Span::CallSite)
                    + seq![Tok::Ident("directive"@, d.dir.spec_span()), call],
            )
        }),
{
    lemma_directive_names_differ();
    let comma = Tok::Punct(',', Spacing::Alone, Span::CallSite);
    let args = seq![key_ident(d.key)] + seq![comma] + use_value_tokens(d);
    assert(args =~= seq![key_ident(d.key), comma] + use_value_tokens(d));
    assert(seq!["leptos"@, "tachys"@, "html"@] + seq!["directive"@] =~= seq!["leptos"@, "tachys"@, "html"@, "directive"@]);
    let call = Tok::Group(Delimiter::Parenthesis, args, Span::CallSite, Span::CallSite);
    assert(xml_directive_expansion(d)->0 =~= seq![
        Tok::Punct('.', Spacing::Alone, Span::CallSite),
        Tok::Ident("directive"@, d.dir.spec_span()),
        call,
    ]);
    assert(any_attr_path(d)->0 =~= leading_path(seq!["leptos"@, "tachys"@, "html"@, "directive"@], Span::CallSite)
        + colon2(Span::CallSite) + seq![Tok::Ident("directive"@, d.dir.spec_span()), call]);
}


/// How a key-value attribute expands on an HTML-like element, whatever the
/// kind of element: `ref` is `.node_ref(value)`; `class` and `style` are
/// their own method, `.class(value)`; a custom attribute (a `-` in its
/// name, no `aria-*`) is set unchecked,
/// `.attr("name", ::leptos::prelude::IntoAttributeValue::into_attribute_value(value))`;
/// on an HTML or MathML element, any other attribute is its own method,
/// `.name(value)` with the name in snake_case.
pub proof fn law_element_attribute_shape(kv: KvAttr, kind: TagKind)
    ensures
        ({
            let key = kv.spec_key();
            let name = key.repr_view();
            let value = value_tokens(kv.spec_value());
            let cs = Span::CallSite;
            let dot = Tok::Punct('.', Spacing::Alone, cs);
            let own = seq![
                dot,
                Tok::Ident(snake_text(name), key.spec_span()),
                Tok::Group(Delimiter::Parenthesis, value, cs, cs),
            ];
            &&& name == "ref"@ ==> xml_kv_tokens(kv, kind) == seq![
                dot,
                Tok::Ident("node_ref"@, key.spec_span()),
                Tok::Group(Delimiter::Parenthesis, value, cs, cs),
            ]
            &&& (name == "class"@ || name == "style"@) ==> xml_kv_tokens(kv, kind) == own
            &&& name != "ref"@ && spec_attribute_kind(name) == AttributeKind::Custom ==> xml_kv_tokens(kv, kind)
                == seq![
                dot,
                Tok::Ident("attr"@, cs),
                Tok::Group(
                    Delimiter::Parenthesis,
                    seq![Tok::Literal(crate::ast::ident::quoted(name), cs), Tok::Punct(',', Spacing::Alone, cs)]
                        + leading_path(
                        seq!["leptos"@, "prelude"@, "IntoAttributeValue"@, "into_attribute_value"@],
                        cs,
                    ) + seq![Tok::Group(Delimiter::Parenthesis, value, cs, cs)],
                    cs,
                    cs,
                ),
            ]
            &&& name != "ref"@ && spec_attribute_kind(name) != AttributeKind::Custom && (kind == TagKind::Html || kind
                == TagKind::Math) ==> xml_kv_tokens(kv, kind) == own
        }),
{
    reveal_strlit("ref");
    reveal_strlit("class");
    reveal_strlit("style");
    let key = kv.spec_key();
    let name = key.repr_view();
    let value = value_tokens(kv.spec_value());
    let cs = Span::CallSite;
    if name == "class"@ || name == "style"@ {
        assert(name[0] != 'r');
        assert(name != "ref"@);
    }
    let args = seq![Tok::Literal(crate::ast::ident::quoted(name), cs), Tok::Punct(',', Spacing::Alone, cs)]
        + leading_path(seq!["leptos"@, "prelude"@, "IntoAttributeValue"@, "into_attribute_value"@], cs)
        + grouped(Delimiter::Parenthesis, value, cs);
    assert(args =~= seq![Tok::Literal(crate::ast::ident::quoted(name), cs), Tok::Punct(',', Spacing::Alone, cs)]
        + leading_path(seq!["leptos"@, "prelude"@, "IntoAttributeValue"@, "into_attribute_value"@], cs)
        + seq![Tok::Group(Delimiter::Parenthesis, value, cs, cs)]);
}


/// The event of an `on:` directive is `::leptos::tachys::html::event::name`,
/// the key in snake_case; with the `:undelegated` modifier it is wrapped as
/// `::leptos::tachys::html::event::undelegated(::leptos::tachys::html::event::name)`;
/// any other modifier leaves it as it is.
pub proof fn law_event_path_shape(d: Directive)
    ensures
        ({
            let pre = leading_path(seq!["leptos"@, "tachys"@, "html"@, "event"@], Span::CallSite) + colon2(
                Span::CallSite,
            );
            let ev = pre + seq![event_name(d.key)];
            &&& (d.modifier matches Some(m) && m is Ident && m.text() == "undelegated"@) ==> event_listener_path(d)
                == pre + seq![tree_view(d.modifier->0), Tok::Group(Delimiter::Parenthesis, ev, Span::CallSite, Span::CallSite)]
            &&& !(d.modifier matches Some(m) && m is Ident && m.text() == "undelegated"@) ==> event_listener_path(d)
                == ev
        }),
{
    let pre = leading_path(seq!["leptos"@, "tachys"@, "html"@, "event"@], Span::CallSite) + colon2(Span::CallSite);
    match d.modifier {
        Some(m) => {
            assert(event_path(tree_view(m)).drop_last() =~= pre);
        },
        None => {},
    }
}

/// Each class shorthand of an element is `.class((name, true))` and each id
/// shorthand `.id(name)`, the name a string, the method spanned at the `.`
/// or `#`; shorthands of two runs come one run after the other.
pub proof fn law_element_shorthands(a: Seq<SelectorShorthand>, b: Seq<SelectorShorthand>, x: SelectorShorthand)
    ensures
        class_methods(a + b) == class_methods(a) + class_methods(b),
        id_methods(a + b) == id_methods(a) + id_methods(b),
        class_methods(seq![x]) == if x is Class {
            seq![
                Tok::Punct('.', Spacing::Alone, Span::CallSite),
                Tok::Ident("class"@, x.prefix_span()),
                Tok::Group(
                    Delimiter::Parenthesis,
                    seq![
                        Tok::Group(
                            Delimiter::Parenthesis,
                            seq![
                                str_colored(x.spec_ident()),
                                Tok::Punct(',', Spacing::Alone, Span::CallSite),
                                Tok::Ident("true"@, Span::CallSite),
                            ],
                            Span::CallSite,
                            Span::CallSite,
                        ),
                    ],
                    Span::CallSite,
                    Span::CallSite,
                ),
            ]
        } else {
            Seq::empty()
        },
        id_methods(seq![x]) == if x is Id {
            seq![
                Tok::Punct('.', Spacing::Alone, Span::CallSite),
                Tok::Ident("id"@, x.prefix_span()),
                Tok::Group(Delimiter::Parenthesis, seq![str_colored(x.spec_ident())], Span::CallSite, Span::CallSite),
            ]
        } else {
            Seq::empty()
        },
    decreases b.len(),
{
    let one = seq![x];
    assert(one.drop_last() =~= Seq::<SelectorShorthand>::empty());
    assert(class_methods(one.drop_last()) == Seq::<Tok>::empty());
    assert(id_methods(one.drop_last()) == Seq::<Tok>::empty());
    assert(class_methods(one) =~= if x is Class {
        seq![
            Tok::Punct('.', Spacing::Alone, Span::CallSite),
            Tok::Ident("class"@, x.prefix_span()),
            Tok::Group(
                Delimiter::Parenthesis,
                seq![
                    Tok::Group(
                        Delimiter::Parenthesis,
                        seq![
                            str_colored(x.spec_ident()),
                            Tok::Punct(',', Spacing::Alone, Span::CallSite),
                            Tok::Ident("true"@, Span::CallSite),
                        ],
                        Span::CallSite,
                        Span::CallSite,
                    ),
                ],
                Span::CallSite,
                Span::CallSite,
            ),
        ]
    } else {
        Seq::<Tok>::empty()
    });
    assert(id_methods(one) =~= if x is Id {
        seq![
            Tok::Punct('.', Spacing::Alone, Span::CallSite),
            Tok::Ident("id"@, x.prefix_span()),
            Tok::Group(Delimiter::Parenthesis, seq![str_colored(x.spec_ident())], Span::CallSite, Span::CallSite),
        ]
    } else {
        Seq::<Tok>::empty()
    });
    if b.len() == 0 {
        assert(a + b =~= a);
        assert(class_methods(a) + Seq::<Tok>::empty() =~= class_methods(a));
        assert(id_methods(a) + Seq::<Tok>::empty() =~= id_methods(a));
    } else {
        law_element_shorthands(a, b.drop_last(), x);
        assert((a + b).drop_last() =~= a + b.drop_last());
        assert((a + b).last() == b.last());
        assert(class_methods(a + b) =~= class_methods(a) + class_methods(b));
        assert(id_methods(a + b) =~= id_methods(a) + id_methods(b));
    }
}

} // verus!
