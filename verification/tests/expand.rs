use std::str::FromStr;

use leptos_mview_core::ast::children::Children;
use leptos_mview_core::parse::{Diagnostic, Input};
use leptos_mview_core::expand::utils::{snake_case_to_upper_camel, turbofishify, upper_camel_to_snake_case};
use leptos_mview_core::mview_impl;
use leptos_mview_core::span::Span;
use leptos_mview_core::token::{Delimiter, Spacing, TokenTree};

/// Lexes Rust source into the library's tokens, numbering the tokens in the
/// order they are met.
fn tokens_of(src: &str) -> Vec<TokenTree> {
    let ts = proc_macro2::TokenStream::from_str(src).unwrap();
    let mut n = 0usize;
    from_pm2(ts, &mut n)
}

fn from_pm2(ts: proc_macro2::TokenStream, n: &mut usize) -> Vec<TokenTree> {
    let mut out = Vec::new();
    for tt in ts {
        let here = Span::Src(*n, *n);
        match tt {
            proc_macro2::TokenTree::Ident(i) => {
                out.push(TokenTree::Ident { text: i.to_string().chars().collect(), span: here });
                *n += 1;
            }
            proc_macro2::TokenTree::Punct(p) => {
                let spacing = match p.spacing() {
                    proc_macro2::Spacing::Alone => Spacing::Alone,
                    proc_macro2::Spacing::Joint => Spacing::Joint,
                };
                out.push(TokenTree::Punct { ch: p.as_char(), spacing, span: here });
                *n += 1;
            }
            proc_macro2::TokenTree::Literal(l) => {
                out.push(TokenTree::Literal { text: l.to_string().chars().collect(), span: here });
                *n += 1;
            }
            proc_macro2::TokenTree::Group(g) => {
                let delim = match g.delimiter() {
                    proc_macro2::Delimiter::Parenthesis => Delimiter::Parenthesis,
                    proc_macro2::Delimiter::Brace => Delimiter::Brace,
                    proc_macro2::Delimiter::Bracket => Delimiter::Bracket,
                    proc_macro2::Delimiter::None => {
                        out.extend(from_pm2(g.stream(), n));
                        continue;
                    }
                };
                let open = *n;
                *n += 1;
                let stream = from_pm2(g.stream(), n);
                let close = *n;
                *n += 1;
                out.push(TokenTree::Group { delim, stream, span: Span::Src(open, close), close: Span::Src(close, close) });
            }
        }
    }
    out
}

/// Prints the library's tokens as `proc_macro2` prints a token stream, every
/// punctuation taken alone (how punctuations are joined does not change what
/// the tokens mean).
fn render(toks: &[TokenTree]) -> String {
    alone(to_pm2(toks)).to_string()
}

fn alone(ts: proc_macro2::TokenStream) -> proc_macro2::TokenStream {
    ts.into_iter()
        .map(|tt| match tt {
            proc_macro2::TokenTree::Punct(p) => {
                proc_macro2::Punct::new(p.as_char(), proc_macro2::Spacing::Alone).into()
            }
            proc_macro2::TokenTree::Group(g) => proc_macro2::Group::new(g.delimiter(), alone(g.stream())).into(),
            other => other,
        })
        .collect()
}

fn to_pm2(toks: &[TokenTree]) -> proc_macro2::TokenStream {
    let cs = proc_macro2::Span::call_site();
    let mut out = proc_macro2::TokenStream::new();
    for t in toks {
        let tt: proc_macro2::TokenTree = match t {
            TokenTree::Ident { text, .. } => {
                let s: String = text.iter().collect();
                match s.strip_prefix("r#") {
                    Some(raw) => proc_macro2::Ident::new_raw(raw, cs).into(),
                    None => proc_macro2::Ident::new(&s, cs).into(),
                }
            }
            TokenTree::Punct { ch, spacing, .. } => {
                let sp = match spacing {
                    Spacing::Alone => proc_macro2::Spacing::Alone,
                    Spacing::Joint => proc_macro2::Spacing::Joint,
                };
                proc_macro2::Punct::new(*ch, sp).into()
            }
            TokenTree::Literal { text, .. } => {
                let s: String = text.iter().collect();
                proc_macro2::Literal::from_str(&s).unwrap().into()
            }
            TokenTree::Group { delim, stream, .. } => {
                let d = match delim {
                    Delimiter::Parenthesis => proc_macro2::Delimiter::Parenthesis,
                    Delimiter::Brace => proc_macro2::Delimiter::Brace,
                    Delimiter::Bracket => proc_macro2::Delimiter::Bracket,
                };
                proc_macro2::Group::new(d, to_pm2(stream)).into()
            }
        };
        out.extend(std::iter::once(tt));
    }
    out
}

fn norm(src: &str) -> String {
    alone(proc_macro2::TokenStream::from_str(src).unwrap()).to_string()
}

/// Expands a view, which must not stop at an error.
fn expand(src: &str) -> (String, Vec<String>) {
    let out = mview_impl(tokens_of(src));
    assert!(out.abort.is_none(), "the macro stopped at an error");
    let diags = out.diagnostics.iter().map(|d| d.message.iter().collect::<String>()).collect();
    (render(&out.tokens), diags)
}

fn expand_ok(src: &str) -> String {
    let (s, diags) = expand(src);
    assert!(diags.is_empty(), "unexpected errors: {diags:?}");
    s
}

fn view_of(inner: &str) -> String {
    norm(&format!("{{ #[allow(unused_braces)] {inner} }}"))
}

#[test]
fn element_with_attribute_and_child() {
    assert_eq!(
        expand_ok(r#"div class="a" { "hi" }"#),
        view_of(r#"::leptos::tachys::html::element::div() .class("a") .child(::leptos::prelude::IntoRender::into_render("hi"))"#)
    );
}

#[test]
fn several_root_children_make_a_view() {
    assert_eq!(expand_ok(r#""a" "b""#), view_of(r#"::leptos::prelude::View::new(("a", "b",))"#));
}

#[test]
fn data_attribute_is_unchecked() {
    assert_eq!(
        expand_ok("div data-x=1;"),
        view_of(r#"::leptos::tachys::html::element::div() .attr("data-x", ::leptos::prelude::IntoAttributeValue::into_attribute_value(1))"#)
    );
}

#[test]
fn aria_attribute_is_checked() {
    assert_eq!(
        expand_ok(r#"div aria-label="x";"#),
        view_of(r#"::leptos::tachys::html::element::div() .aria_label("x")"#)
    );
}

#[test]
fn svg_attributes_are_unchecked_but_class_is_not() {
    assert_eq!(
        expand_ok(r#"circle cx=1 class="c";"#),
        view_of(r#"::leptos::tachys::svg::element::circle() .attr("cx", ::leptos::prelude::IntoAttributeValue::into_attribute_value(1)) .class("c")"#)
    );
}

#[test]
fn ref_attribute_is_a_node_ref() {
    assert_eq!(
        expand_ok("input ref={r};"),
        view_of("::leptos::tachys::html::element::input() .node_ref({r})")
    );
}

#[test]
fn bracket_value_is_a_closure() {
    assert_eq!(
        expand_ok("span { [count.get()] }"),
        view_of("::leptos::tachys::html::element::span() .child(::leptos::prelude::IntoRender::into_render(move || {count.get()}))")
    );
}

#[test]
fn f_bracket_is_a_format_closure() {
    assert_eq!(
        expand_ok(r#"p { f["{}", x] }"#),
        view_of(r#"::leptos::tachys::html::element::p() .child(::leptos::prelude::IntoRender::into_render(move || ::std::format!("{}", x)))"#)
    );
}

#[test]
fn unknown_bracket_prefix_is_reported() {
    let (_, diags) = expand(r#"p { g["{}", x] }"#);
    assert_eq!(diags, vec!["unsupported prefix: only `f` is supported.".to_string()]);
}

#[test]
fn selectors_become_class_and_id_methods() {
    assert_eq!(
        expand_ok("div.big #main.small;"),
        view_of(r#"::leptos::tachys::html::element::div() .class(({ let _ = (); "big" }, true)) .class(({ let _ = (); "small" }, true)) .id({ let _ = (); "main" })"#)
    );
}

#[test]
fn attributes_and_directives_keep_their_order() {
    assert_eq!(
        expand_ok(r#"button on:click={f} class="x" style:color="red";"#),
        view_of(r#"::leptos::tachys::html::element::button() .on(::leptos::tachys::html::event::click, {f}) .class("x") .style(("color", "red"))"#)
    );
}

#[test]
fn element_expands_as_documented() {
    assert_eq!(
        expand_ok(r#"div class="component" style:color="black" ref={div} { "Hello " strong { "world" } }"#),
        view_of(r#"::leptos::tachys::html::element::div() .class("component") .style(("color", "black")) .node_ref({div}) .child(::leptos::prelude::IntoRender::into_render("Hello ")) .child(::leptos::prelude::IntoRender::into_render(::leptos::tachys::html::element::strong() .child(::leptos::prelude::IntoRender::into_render("world"))))"#)
    );
}

#[test]
fn prop_directive_on_component_is_a_prop_call() {
    assert_eq!(
        expand_ok(r#"Comp prop:value="aaaa";"#),
        view_of(r#"::leptos::component::component_view(&Comp, ::leptos::component::component_props_builder(&Comp) .build()) .add_any_attr((::leptos::tachys::html::property::prop("value", "aaaa"),))"#)
    );
}

#[test]
fn prop_directive_without_value_is_true() {
    assert_eq!(
        expand_ok(r#"Comp prop:checked;"#),
        view_of(r#"::leptos::component::component_view(&Comp, ::leptos::component::component_props_builder(&Comp) .build()) .add_any_attr((::leptos::tachys::html::property::prop("checked", true),))"#)
    );
}

#[test]
fn undelegated_event() {
    assert_eq!(
        expand_ok("button on:click:undelegated={f};"),
        view_of("::leptos::tachys::html::element::button() .on(::leptos::tachys::html::event::undelegated(::leptos::tachys::html::event::click), {f})")
    );
}

#[test]
fn spread_on_element() {
    assert_eq!(
        expand_ok("div {..attrs};"),
        view_of("::leptos::tachys::html::element::div() .add_any_attr(attrs)")
    );
}

#[test]
fn web_component_uses_custom() {
    assert_eq!(
        expand_ok("my-el;"),
        view_of(r#"::leptos::tachys::html::element::custom("my-el")"#)
    );
}

#[test]
fn component_with_attribute() {
    assert_eq!(
        expand_ok("Comp a=1;"),
        view_of("::leptos::component::component_view(&Comp, ::leptos::component::component_props_builder(&Comp) .a(1) .build())")
    );
}

#[test]
fn component_class_shorthand_is_an_any_attr() {
    assert_eq!(
        expand_ok("Comp.red;"),
        view_of(r#"::leptos::component::component_view(&Comp, ::leptos::component::component_props_builder(&Comp) .build()) .add_any_attr((::leptos::tachys::html::class::class(("red", true)),))"#)
    );
}

#[test]
fn component_ids_are_joined() {
    assert_eq!(
        expand_ok("Comp #a #b;"),
        view_of(r#"::leptos::component::component_view(&Comp, ::leptos::component::component_props_builder(&Comp) .build()) .add_any_attr((::leptos::tachys::html::attribute::id("a b"),))"#)
    );
}

#[test]
fn component_generics_use_turbofish() {
    assert_eq!(
        expand_ok("Comp<T>;"),
        view_of("::leptos::component::component_view(&Comp::<T>, ::leptos::component::component_props_builder(&Comp::<T>) .build())")
    );
}

#[test]
fn component_children() {
    assert_eq!(
        expand_ok(r#"Comp { "x" }"#),
        view_of(r#"::leptos::component::component_view(&Comp, ::leptos::component::component_props_builder(&Comp) .children({ ::leptos::children::ToChildren::to_children(move || "x") }) .build())"#)
    );
}

#[test]
fn component_children_with_args_and_clones() {
    assert_eq!(
        expand_ok(r#"Comp clone:v |x| { "a" "b" }"#),
        view_of(r#"::leptos::component::component_view(&Comp, ::leptos::component::component_props_builder(&Comp) .children({ let v = v.clone(); move |x| ("a", "b",) }) .build())"#)
    );
}

#[test]
fn one_slot_is_passed_alone() {
    assert_eq!(
        expand_ok(r#"Tabs { slot:Tab label="a"; }"#),
        view_of(r#"::leptos::component::component_view(&Tabs, ::leptos::component::component_props_builder(&Tabs) .r#tab(::std::convert::Into::into(Tab::builder() .label("a") .build())) .build())"#)
    );
}

#[test]
fn several_slots_are_passed_as_a_vec() {
    assert_eq!(
        expand_ok("Tabs { slot:MyTab; slot:MyTab; }"),
        view_of("::leptos::component::component_view(&Tabs, ::leptos::component::component_props_builder(&Tabs) .r#my_tab(<[_]>::into_vec(::std::boxed::Box::new([::std::convert::Into::into(MyTab::builder() .build()), ::std::convert::Into::into(MyTab::builder() .build())]))) .build())")
    );
}

#[test]
fn slot_at_root_stops_the_macro() {
    let out = mview_impl(tokens_of("slot:Foo;"));
    let d = out.abort.expect("the macro should stop");
    assert_eq!(d.message.iter().collect::<String>(), "slots should be inside a parent that supports slots");
    assert_eq!(d.span, Span::Src(0, 0));
    assert_eq!(render(&out.tokens), norm("()"));
}

#[test]
fn slot_among_root_children_stops_at_its_tag() {
    let out = mview_impl(tokens_of(r#""a" slot:Foo;"#));
    let d = out.abort.expect("the macro should stop");
    assert_eq!(d.message.iter().collect::<String>(), "slots should be inside a parent that supports slots");
    assert_eq!(d.span, Span::Src(3, 3));
}

#[test]
fn directive_on_slot_is_reported() {
    let (_, diags) = expand("Tabs { slot:Tab on:click={f}; }");
    assert_eq!(diags, vec!["`on:` is not supported on slots".to_string()]);
}

#[test]
fn unknown_directive_on_element_is_reported() {
    let (_, diags) = expand("div foo:bar;");
    assert_eq!(diags, vec!["unknown directive".to_string()]);
}

#[test]
fn non_string_literal_child_stops_the_macro() {
    assert_eq!(abort_message("div { 1 }"), "only string literals are allowed in children");
    assert_eq!(abort_message("true"), "only string literals are allowed in children");
    assert_eq!(abort_message(r#"div { "a" 2.5 }"#), "only string literals are allowed in children");
}

#[test]
fn extra_semicolon_is_skipped() {
    let (s, diags) = expand(r#"div; ; "a""#);
    assert_eq!(diags, vec!["extra semi-colon found".to_string()]);
    assert_eq!(s, view_of(r#"::leptos::prelude::View::new((::leptos::tachys::html::element::div(), "a",))"#));
}

#[test]
fn doctype_expands_to_the_doctype_call() {
    assert_eq!(
        expand_ok("!DOCTYPE html;"),
        view_of(r#"{ #[allow(non_snake_case)] let DOCTYPE = (); let html = (); let _: () = DOCTYPE; let _: () = html; ::leptos::tachys::html::doctype("html") }"#)
    );
}

#[test]
fn incomplete_doctype_is_reported() {
    let (_, diags) = expand("!DOCTYPE;");
    assert_eq!(diags, vec!["expected `html` after `!DOCTYPE`".to_string()]);
}

#[test]
fn snake_case_of_upper_camel() {
    assert_eq!(upper_camel_to_snake_case("MyTab"), "my_tab");
    assert_eq!(upper_camel_to_snake_case("Tab"), "tab");
    assert_eq!(upper_camel_to_snake_case("HTMLThing"), "h_t_m_l_thing");
    assert_eq!(upper_camel_to_snake_case(""), "");
}

#[test]
fn upper_camel_of_snake_case_round_trips() {
    for s in ["MyTab", "Tab", "ABC", "X1y"] {
        assert_eq!(snake_case_to_upper_camel(&upper_camel_to_snake_case(s)), s);
    }
    assert_eq!(snake_case_to_upper_camel("my_tab"), "MyTab");
}

#[test]
fn add_turbofish() {
    let path = turbofishify(&tokens_of("std::vec::Vec<i32>")).ok().unwrap();
    assert_eq!("std::vec::Vec::<i32>", render(&path).replace(' ', ""));
}

#[test]
fn leave_turbofish() {
    let path = turbofishify(&tokens_of("std::vec::Vec::<i32>")).ok().unwrap();
    assert_eq!("std::vec::Vec::<i32>", render(&path).replace(' ', ""));
}

#[test]
fn turbofish_leaves_nested_generics() {
    let path = turbofishify(&tokens_of("a::B<C<D>, fn() -> E>::f<G>")).ok().unwrap();
    assert_eq!("a::B::<C<D>,fn()->E>::f::<G>", render(&path).replace(' ', ""));
}

#[test]
fn turbofish_twice_is_turbofish_once() {
    let once = turbofishify(&tokens_of("a::B<C<D>>::e<F>")).ok().unwrap();
    let twice = turbofishify(&once).ok().unwrap();
    assert_eq!(render(&once), render(&twice));
    assert_eq!("a::B::<C<D>>::e::<F>", render(&once).replace(' ', ""));
}

#[test]
fn turbofish_refuses_function_generics() {
    match turbofishify(&tokens_of("std::ops::Fn(i32) -> i32")) {
        Err(d) => assert_eq!(d.message.iter().collect::<String>(), "function generics are not allowed"),
        Ok(_) => panic!("expected an error"),
    }
    assert!(turbofishify(&tokens_of("Box<dyn Fn(i32)>")).is_ok());
}

fn expand_diags(src: &str) -> Vec<String> {
    expand(src).1
}

fn abort_message(src: &str) -> String {
    let out = mview_impl(tokens_of(src));
    let d = out.abort.expect("the macro should stop");
    assert_eq!(render(&out.tokens), norm("()"));
    d.message.iter().collect()
}

#[test]
fn slots_of_one_name_share_one_method() {
    let s = expand_ok("Tabs { slot:A; slot:B; slot:A; }");
    assert_eq!(s.matches("r#a").count(), 1);
    assert_eq!(s.matches("r#b").count(), 1);
    assert_eq!(s.matches(norm("A::builder").as_str()).count(), 2);
    assert_eq!(s.matches(norm("B::builder").as_str()).count(), 1);
    let a = s.find("r#a").unwrap();
    let b = s.find("r#b").unwrap();
    assert!(a < b, "names keep the order they first appear in");
}

#[test]
fn slot_with_generics_is_reported_and_left_out() {
    let (s, diags) = expand("Tabs { slot:Tab<T>; }");
    assert_eq!(diags, vec!["slot name must be a single ident, not a path".to_string()]);
    assert!(!s.contains("r#tab"));
}

#[test]
fn class_shorthand_on_slot_is_reported() {
    assert_eq!(expand_diags("Tabs { slot:Tab.a; }"), vec!["selector shorthands are not supported on slots".to_string()]);
}

#[test]
fn spread_on_slot_is_reported() {
    assert_eq!(expand_diags("Tabs { slot:Tab {..a}; }"), vec!["spread syntax is not supported on slots".to_string()]);
}

#[test]
fn unknown_directive_on_component_is_reported() {
    assert_eq!(expand_diags("Comp foo:bar;"), vec!["unknown directive".to_string()]);
}

#[test]
fn modifier_on_clone_is_reported() {
    // once by the component, once by the clone itself
    let m = "unknown modifier: modifiers are only supported on `on:` directives".to_string();
    assert_eq!(expand_diags(r#"Comp clone:x:y { "a" }"#), vec![m.clone(), m]);
}

#[test]
fn clone_with_a_value_is_reported() {
    assert_eq!(expand_diags(r#"Comp clone:x={y} { "a" }"#), vec!["`clone:` does not take any values".to_string()]);
}

#[test]
fn unknown_event_modifier_is_reported() {
    assert_eq!(expand_diags("button on:click:other={f};"), vec!["unknown modifier".to_string()]);
}

#[test]
fn string_event_name_is_reported() {
    let (s, diags) = expand(r#"button on:"click"={f};"#);
    assert_eq!(diags, vec!["event type must be an identifier".to_string()]);
    assert!(s.contains("invalid_event"));
}

#[test]
fn string_key_of_attr_is_read_as_its_value() {
    let (s, diags) = expand(r#"Comp attr:"class"={x};"#);
    assert_eq!(diags, vec!["expected identifier".to_string()]);
    assert!(s.contains(&norm(
        "::leptos::tachys::html::__invalid_identifier_found_str::__invalid_identifier_found_str({x})"
    )));
}

#[test]
fn custom_attr_directive_on_component() {
    assert_eq!(
        expand_ok("Comp attr:data-x=1;"),
        view_of(r#"::leptos::component::component_view(&Comp, ::leptos::component::component_props_builder(&Comp) .build()) .add_any_attr((::leptos::tachys::html::attribute::custom::custom_attribute("data-x", 1),))"#)
    );
}

#[test]
fn unknown_token_after_attributes_is_reported() {
    let (_, diags) = expand(r#"div = "a""#);
    assert_eq!(diags[0], "unknown attribute");
    assert_eq!(diags[1], "child elements not found");
}

#[test]
fn invalid_child_is_reported() {
    let (_, diags) = expand("div { = }");
    assert_eq!(diags, vec!["invalid child: expected literal, block, bracket or element".to_string()]);
}

#[test]
fn missing_value_is_reported() {
    let (_, diags) = expand("div class=;");
    assert_eq!(diags, vec!["expected value after =".to_string()]);
}

#[test]
fn unclosed_closure_arguments_stop_the_macro() {
    assert_eq!(abort_message(r#"Comp |x { "a" }"#), "closure arguments not closed");
}

#[test]
fn unclosed_generics_stop_the_macro() {
    assert_eq!(abort_message("Comp<T;"), "failed to parse component generics");
}

#[test]
fn children_split_into_nodes_and_slots() {
    let toks = tokens_of(r#""a" slot:A; div; slot:B; {x}"#);
    let mut diags: Vec<Diagnostic> = Vec::new();
    let inp = Input { toks: &toks, end: Span::CallSite };
    let children = match Children::parse(&inp, &mut diags) {
        Ok(c) => c,
        Err(_) => panic!("children did not parse"),
    };
    assert_eq!(children.len(), 5);
    assert_eq!(children.element_children().len(), 3);
    assert_eq!(children.slot_children().len(), 2);
}

#[test]
fn empty_view_is_an_empty_view() {
    assert_eq!(expand_ok(""), view_of("::leptos::prelude::View::new(())"));
}

#[test]
fn extra_tokens_in_braced_directive_key_stop_the_macro() {
    assert_eq!(abort_message("div on:{a b};"), "found extra tokens trying to parse braced expression");
}

#[test]
fn colon_without_modifier_stops_the_macro() {
    assert_eq!(abort_message("div on:click:={f};"), "expected identifier");
}

#[test]
fn invalid_child_skips_the_rest_of_the_block() {
    let (s, diags) = expand(r#"div { = "a" }"#);
    assert_eq!(diags, vec!["invalid child: expected literal, block, bracket or element".to_string()]);
    assert_eq!(s, view_of("::leptos::tachys::html::element::div()"));
}

#[test]
fn parsing_reports_come_before_expansion_reports() {
    let out = mview_impl(tokens_of("div class= foo:bar;"));
    assert!(out.abort.is_none());
    let msgs: Vec<String> = out.diagnostics.iter().map(|d| d.message.iter().collect()).collect();
    assert_eq!(msgs, vec!["expected value after =".to_string(), "unknown directive".to_string()]);
    let help: String = out.diagnostics[0].help.clone().unwrap().iter().collect();
    assert_eq!(help, "you may have meant to wrap this in braces");
}

#[test]
fn generics_that_do_not_parse_stop_the_macro() {
    assert_eq!(abort_message("Comp<1 2>;"), "failed to parse component generics");
}

#[test]
fn generics_with_lifetimes_and_paths_parse() {
    let s = expand_ok("Comp<'a, std::vec::Vec<T>>;");
    assert!(s.contains(&norm("Comp::<'a, std::vec::Vec<T>>")), "{s}");
}
