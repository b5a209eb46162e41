use std::str::FromStr;

use leptos_mview_core::ast::attribute::kv::KvAttr;
use leptos_mview_core::ast::attribute::selector::{SelectorShorthand, SelectorShorthands};
use leptos_mview_core::ast::attribute::spread_attrs::SpreadAttr;
use leptos_mview_core::ast::attribute::Attrs;
use leptos_mview_core::ast::element::Element;
use leptos_mview_core::ast::ident::parse_kebab_ident;
use leptos_mview_core::ast::tag::{is_component, is_math_ml_element, is_svg_element, is_unknown_element, Tag, TagKind};
use leptos_mview_core::ast::value::Value;
use leptos_mview_core::parse::{Diagnostic, Input, ParseError};
use leptos_mview_core::span::Span;
use leptos_mview_core::token::{Delimiter, Spacing, TokenTree};

/// Lexes Rust source into the library's tokens, numbering the tokens in the
/// order they are met (a group's opening delimiter, its contents, its
/// closing delimiter).
fn lex(src: &str) -> Vec<TokenTree> {
    let ts = proc_macro2::TokenStream::from_str(src).unwrap();
    let mut n = 0usize;
    convert(ts, &mut n)
}

fn convert(ts: proc_macro2::TokenStream, n: &mut usize) -> Vec<TokenTree> {
    let mut out = Vec::new();
    for tt in ts {
        match tt {
            proc_macro2::TokenTree::Ident(i) => {
                out.push(TokenTree::Ident { text: i.to_string().chars().collect(), span: Span::Src(*n, *n) });
                *n += 1;
            }
            proc_macro2::TokenTree::Punct(p) => {
                let spacing = match p.spacing() {
                    proc_macro2::Spacing::Alone => Spacing::Alone,
                    proc_macro2::Spacing::Joint => Spacing::Joint,
                };
                out.push(TokenTree::Punct { ch: p.as_char(), spacing, span: Span::Src(*n, *n) });
                *n += 1;
            }
            proc_macro2::TokenTree::Literal(l) => {
                out.push(TokenTree::Literal { text: l.to_string().chars().collect(), span: Span::Src(*n, *n) });
                *n += 1;
            }
            proc_macro2::TokenTree::Group(g) => {
                let delim = match g.delimiter() {
                    proc_macro2::Delimiter::Parenthesis => Delimiter::Parenthesis,
                    proc_macro2::Delimiter::Brace => Delimiter::Brace,
                    proc_macro2::Delimiter::Bracket => Delimiter::Bracket,
                    proc_macro2::Delimiter::None => {
                        out.extend(convert(g.stream(), n));
                        continue;
                    }
                };
                let open = *n;
                *n += 1;
                let stream = convert(g.stream(), n);
                let close = *n;
                *n += 1;
                out.push(TokenTree::Group { delim, stream, span: Span::Src(open, close), close: Span::Src(close, close) });
            }
        }
    }
    out
}

fn input(toks: &Vec<TokenTree>) -> Input<'_> {
    Input { toks, end: Span::CallSite }
}

/// Parses a whole kebab-case identifier, as `syn::parse_str` would: the
/// input must be used up.
fn kebab_repr(src: &str) -> Option<String> {
    let toks = lex(src);
    match parse_kebab_ident(&input(&toks), 0) {
        Ok((k, q)) if q == toks.len() => Some(k.repr()),
        _ => None,
    }
}

fn parse_element(src: &str) -> Element {
    let toks = lex(src);
    let mut diags: Vec<Diagnostic> = Vec::new();
    let (e, q) = match Element::parse(&input(&toks), 0, &mut diags) {
        Ok(r) => r,
        Err(_) => panic!("element did not parse"),
    };
    assert_eq!(q, toks.len());
    assert!(diags.is_empty());
    e
}

#[test]
fn attribute_simple_kv_attr() {
    let toks = lex(r#"key = "value""#);
    let mut diags: Vec<Diagnostic> = Vec::new();
    let (kv, q) = match KvAttr::parse(&input(&toks), 0, &mut diags) {
        Ok(r) => r,
        Err(_) => panic!("did not parse"),
    };
    assert_eq!(q, toks.len());
    assert_eq!(kv.key().repr(), "key");
    assert!(kv.value().is_lit());
}

#[test]
fn attribute_parse_complex_attrs() {
    let toks = lex(
        r#"
        key-1 = "value"
        a-long-thing=[some()]
        style:--var-2={move || true}
        class:{disabled}
        {checked}
        {..spread}
    "#,
    );
    let mut diags: Vec<Diagnostic> = Vec::new();
    let (attrs, q) = match Attrs::parse(&input(&toks), 0, &mut diags) {
        Ok(r) => r,
        Err(_) => panic!("did not parse"),
    };
    assert_eq!(q, toks.len());
    let attrs: &Vec<_> = attrs.iter();
    assert!(attrs[0].is_kv());
    assert!(attrs[1].is_kv());
    assert!(attrs[2].is_dir());
    assert!(attrs[3].is_dir());
    assert!(attrs[4].is_kv());
    assert!(attrs[5].is_spread());
}

#[test]
fn multiple() {
    #[derive(PartialEq, Eq)]
    enum SelectorKind {
        Class,
        Id,
    }
    let toks = lex(".class.another-class #id #id2 .wow-class #ida");
    let (selectors, q): (SelectorShorthands, usize) = SelectorShorthands::parse(&input(&toks), 0);
    assert_eq!(q, toks.len());
    let result = [
        (SelectorKind::Class, "class"),
        (SelectorKind::Class, "another-class"),
        (SelectorKind::Id, "id"),
        (SelectorKind::Id, "id2"),
        (SelectorKind::Class, "wow-class"),
        (SelectorKind::Id, "ida"),
    ];
    assert_eq!(selectors.len(), result.len());
    for (selector, result) in selectors.iter().iter().zip(result) {
        match selector {
            SelectorShorthand::Id { id, .. } => {
                assert!(result.0 == SelectorKind::Id, "{} should not be an id", id.repr());
                assert_eq!(result.1, id.repr());
            }
            SelectorShorthand::Class { class, .. } => {
                assert!(result.0 == SelectorKind::Class, "{} should not be a class", class.repr());
                assert_eq!(result.1, class.repr());
            }
        }
    }
}

#[test]
fn spread_attrs_compiles() {
    let toks = lex("{ ..a }");
    match SpreadAttr::parse(&input(&toks), 0) {
        Ok((s, q)) => {
            assert_eq!(q, toks.len());
            assert_eq!(s.expr().len(), 1);
        }
        Err(_) => panic!("did not parse"),
    }
}

#[test]
fn element_full_element() {
    let element = parse_element(r#"div class="test" checked data-index=[index] { "child" span { "child2" } }"#);
    assert_eq!(element.attrs().len(), 3);
    assert!(element.children().is_some());
    assert_eq!(element.children().unwrap().len(), 2);
}

#[test]
fn element_no_child_element() {
    let element = parse_element(r#"input type="text";"#);
    assert_eq!(element.attrs().len(), 1);
    assert!(element.children().is_none());
}

#[test]
fn element_no_child_or_attrs() {
    let element = parse_element("br;");
    assert_eq!(element.attrs().len(), 0);
    assert!(element.children.is_none());
}

#[test]
fn ident_valid_reprs() {
    let streams = [
        "word",
        "two-words",
        "--var-abc",
        "-a-b",
        "let--a",
        "struct-b-",
        "blue-100",
        "blue-100a",
        "number-0xa1b2",
        "-",
        "-_-_a",
        "for",
    ];
    for stream in streams {
        assert_eq!(kebab_repr(stream).as_deref(), Some(stream));
    }
}

#[test]
fn ident_invalid_reprs() {
    let streams = ["data-thing- =", "distinct idents"];
    for stream in streams {
        assert!(kebab_repr(stream).is_none());
    }
}

#[test]
fn ident_different_reprs() {
    let streams = ["two - words", "- - a - b"];
    for stream in streams {
        assert_eq!(kebab_repr(stream), Some(stream.replace(' ', "")));
    }
}

#[test]
fn value_value_conversion() {
    #[derive(Clone, Copy)]
    enum ValueKind {
        Lit,
        Block,
        Bracket,
    }
    let exprs = [
        ("\"hi\"", ValueKind::Lit),
        ("1", ValueKind::Lit),
        ("true", ValueKind::Lit),
        ("{value}", ValueKind::Block),
        ("{value; value2; value3}", ValueKind::Block),
        ("[abc.get()]", ValueKind::Bracket),
        ("{(aa,)}", ValueKind::Block),
        ("[{a; b}]", ValueKind::Bracket),
    ];
    for (expr, kind) in exprs {
        let toks = lex(expr);
        let (value, q) = match Value::parse(&input(&toks), 0) {
            Ok(r) => r,
            Err(_) => panic!("{expr} did not parse"),
        };
        assert_eq!(q, toks.len());
        let ok = match kind {
            ValueKind::Lit => value.is_lit(),
            ValueKind::Block => value.is_block(),
            ValueKind::Bracket => value.is_bracketed(),
        };
        assert!(ok, "{expr}");
    }
}

#[test]
fn kebab_ident_spans_every_part() {
    let toks = lex("data-index-2");
    let (k, q) = parse_kebab_ident(&input(&toks), 0).ok().unwrap();
    assert_eq!(q, 5);
    assert_eq!(k.repr(), "data-index-2");
    assert_eq!(k.spans().len(), 3);
    assert_eq!(k.span(), Span::Src(0, 4));
}

#[test]
fn kebab_ident_needs_a_start() {
    let toks = lex("= a");
    assert!(matches!(parse_kebab_ident(&input(&toks), 0), Err(ParseError::Fail(_))));
}

#[test]
fn tag_kinds_by_name() {
    assert_eq!(TagKind::from("div"), TagKind::Html);
    assert_eq!(TagKind::from("Button"), TagKind::Component);
    assert_eq!(TagKind::from("circle"), TagKind::Svg);
    assert_eq!(TagKind::from("math"), TagKind::Math);
    assert_eq!(TagKind::from("my-element"), TagKind::WebComponent);
    assert_eq!(TagKind::from("a"), TagKind::Html);
}

#[test]
fn component_tag_with_generics() {
    let toks = lex("Comp<T, U> {}");
    let (t, q) = Tag::parse(&input(&toks), 0).ok().unwrap();
    assert_eq!(q, 6);
    match t {
        Tag::Component(name, Some(g)) => {
            assert!(matches!(name, TokenTree::Ident { .. }));
            assert_eq!(g.len(), 7);
            assert!(matches!(g[0], TokenTree::Punct { ch: ':', .. }));
            assert!(matches!(g[1], TokenTree::Punct { ch: ':', .. }));
            assert!(matches!(g[2], TokenTree::Punct { ch: '<', .. }));
        }
        _ => panic!("expected a component with generics"),
    }
}

#[test]
fn component_tag_turbofish_aborts() {
    let toks = lex("Comp::<T>");
    match Tag::parse(&input(&toks), 0) {
        Err(ParseError::Abort(d)) => {
            assert_eq!(d.message.iter().collect::<String>(), "unexpected token `::`");
            assert!(d.help.is_some());
        }
        _ => panic!("expected an abort"),
    }
}

#[test]
fn element_with_closure_args_and_selectors() {
    let element = parse_element(r#"Show.big #main when={true} |x| { "a" }"#);
    assert_eq!(element.selectors().len(), 2);
    assert_eq!(element.attrs().len(), 1);
    assert!(element.children_args().is_some());
    assert_eq!(element.children().unwrap().len(), 1);
}

#[test]
fn unterminated_element_is_reported() {
    let toks = lex("div class=\"a\"");
    let mut diags: Vec<Diagnostic> = Vec::new();
    let (e, q) = match Element::parse(&input(&toks), 0, &mut diags) {
        Ok(r) => r,
        Err(_) => panic!("element did not parse"),
    };
    assert_eq!(q, toks.len());
    assert!(e.children().is_none());
    assert_eq!(diags.len(), 1);
    assert_eq!(diags[0].message.iter().collect::<String>(), "unterminated element");
    assert_eq!(diags[0].span, Span::Src(0, 3));
}

#[test]
fn closure_args_without_children_are_reported() {
    let toks = lex("Show |x| when");
    let mut diags: Vec<Diagnostic> = Vec::new();
    let (e, q) = match Element::parse(&input(&toks), 0, &mut diags) {
        Ok(r) => r,
        Err(_) => panic!("element did not parse"),
    };
    assert_eq!(q, 4);
    assert!(e.children_args().is_some());
    assert!(e.children().is_none());
    assert_eq!(diags.len(), 1);
    assert_eq!(diags[0].message.iter().collect::<String>(), "expected children block after closure arguments");
}

#[test]
fn tag_predicates_by_name() {
    assert!(is_component("Button"));
    assert!(!is_component("button"));
    assert!(is_svg_element("circle"));
    assert!(!is_svg_element("div"));
    assert!(is_math_ml_element("mrow"));
    assert!(!is_math_ml_element("span"));
    assert!(is_unknown_element("my-element"));
    assert!(!is_unknown_element("div"));
}

#[test]
fn kebab_repr_is_a_word() {
    for src in ["data - index", "--css - var", "a-1 - b", "r#type", "-x"] {
        let toks = lex(src);
        let (k, _) = parse_kebab_ident(&input(&toks), 0).ok().unwrap();
        let repr = k.repr();
        assert!(!repr.is_empty());
        assert!(!repr.chars().any(char::is_whitespace), "{repr:?}");
        assert!(!k.spans().is_empty());
    }
    assert_eq!(kebab_repr("data - index").as_deref(), Some("data-index"));
}

#[test]
fn kebab_ident_refuses_identifiers_that_are_not_words() {
    for text in ["", "a b", "\u{a0}"] {
        let toks = vec![TokenTree::Ident { text: text.chars().collect(), span: Span::Src(0, 0) }];
        assert!(matches!(parse_kebab_ident(&input(&toks), 0), Err(ParseError::Fail(_))));
    }
    let toks = vec![
        TokenTree::Ident { text: "a".chars().collect(), span: Span::Src(0, 0) },
        TokenTree::Punct { ch: '-', spacing: Spacing::Alone, span: Span::Src(1, 1) },
        TokenTree::Ident { text: "b c".chars().collect(), span: Span::Src(2, 2) },
    ];
    let (k, q) = parse_kebab_ident(&input(&toks), 0).ok().unwrap();
    assert_eq!(k.repr(), "a-");
    assert_eq!(q, 2);
}
