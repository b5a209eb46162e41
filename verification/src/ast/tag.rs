//! Element tags and how an element's kind is decided from its name.

use vstd::prelude::*;

use crate::ast::ident::{is_word, concat_text, kebab_end, lemma_kebab_end_bounds, parse_kebab_ident, snake_chars, snake_text, KebabIdent};
use crate::parse::{lemma_input_len, report, report_help, Diagnostic, Input, ParseError, Report};
use crate::span::Span;
use crate::text::{chars_of, contains_char, text_is};
use crate::expand::expansion::component_path;
use crate::expand::utils::{angle_depth, first_fn_generics, fn_generics_at, lemma_first_fn_generics_none};
use crate::token::{
    colon2, empty_stream, lemma_stream_view, lemma_stream_view_push, push_colon2, push_stream, spell, spelled, stream_view, tree_view, Tok,
    TokenTree, Spacing,
};

verus! {

/// Discriminant of an element tag.
#[derive(Clone, Copy, Debug, PartialEq, Eq, Structural)]
pub enum TagKind {
    Html,
    Component,
    Svg,
    Math,
    WebComponent,
}

pub open spec fn is_ascii_upper(c: char) -> bool {
    'A' <= c <= 'Z'
}

/// A leptos component: the name starts with an ASCII uppercase letter.
pub open spec fn spec_is_component(tag: Seq<char>) -> bool {
    tag.len() > 0 && is_ascii_upper(tag[0])
}

/// A web component: the name holds a `-`.
pub open spec fn spec_is_web_component(tag: Seq<char>) -> bool {
    tag.contains('-')
}

/// The SVG element names.
pub open spec fn spec_is_svg_element(tag: Seq<char>) -> bool {
    ||| tag == "animate"@
    ||| tag == "animateMotion"@
    ||| tag == "animateTransform"@
    ||| tag == "circle"@
    ||| tag == "clipPath"@
    ||| tag == "defs"@
    ||| tag == "desc"@
    ||| tag == "discard"@
    ||| tag == "ellipse"@
    ||| tag == "feBlend"@
    ||| tag == "feColorMatrix"@
    ||| tag == "feComponentTransfer"@
    ||| tag == "feComposite"@
    ||| tag == "feConvolveMatrix"@
    ||| tag == "feDiffuseLighting"@
    ||| tag == "feDisplacementMap"@
    ||| tag == "feDistantLight"@
    ||| tag == "feDropShadow"@
    ||| tag == "feFlood"@
    ||| tag == "feFuncA"@
    ||| tag == "feFuncB"@
    ||| tag == "feFuncG"@
    ||| tag == "feFuncR"@
    ||| tag == "feGaussianBlur"@
    ||| tag == "feImage"@
    ||| tag == "feMerge"@
    ||| tag == "feMergeNode"@
    ||| tag == "feMorphology"@
    ||| tag == "feOffset"@
    ||| tag == "fePointLight"@
    ||| tag == "feSpecularLighting"@
    ||| tag == "feSpotLight"@
    ||| tag == "feTile"@
    ||| tag == "feTurbulence"@
    ||| tag == "filter"@
    ||| tag == "foreignObject"@
    ||| tag == "g"@
    ||| tag == "hatch"@
    ||| tag == "hatchpath"@
    ||| tag == "image"@
    ||| tag == "line"@
    ||| tag == "linearGradient"@
    ||| tag == "marker"@
    ||| tag == "mask"@
    ||| tag == "metadata"@
    ||| tag == "mpath"@
    ||| tag == "path"@
    ||| tag == "pattern"@
    ||| tag == "polygon"@
    ||| tag == "polyline"@
    ||| tag == "radialGradient"@
    ||| tag == "rect"@
    ||| tag == "set"@
    ||| tag == "stop"@
    ||| tag == "svg"@
    ||| tag == "switch"@
    ||| tag == "symbol"@
    ||| tag == "text"@
    ||| tag == "textPath"@
    ||| tag == "tspan"@
    ||| tag == "use"@
    ||| tag == "use_"@
    ||| tag == "view"@
}

/// The MathML element names.
pub open spec fn spec_is_math_ml_element(tag: Seq<char>) -> bool {
    ||| tag == "annotation"@
    ||| tag == "maction"@
    ||| tag == "math"@
    ||| tag == "menclose"@
    ||| tag == "merror"@
    ||| tag == "mfenced"@
    ||| tag == "mfrac"@
    ||| tag == "mi"@
    ||| tag == "mmultiscripts"@
    ||| tag == "mn"@
    ||| tag == "mo"@
    ||| tag == "mover"@
    ||| tag == "mpadded"@
    ||| tag == "mphantom"@
    ||| tag == "mprescripts"@
    ||| tag == "mroot"@
    ||| tag == "mrow"@
    ||| tag == "ms"@
    ||| tag == "mspace"@
    ||| tag == "msqrt"@
    ||| tag == "mstyle"@
    ||| tag == "msub"@
    ||| tag == "msubsup"@
    ||| tag == "msup"@
    ||| tag == "mtable"@
    ||| tag == "mtd"@
    ||| tag == "mtext"@
    ||| tag == "mtr"@
    ||| tag == "munder"@
    ||| tag == "munderover"@
    ||| tag == "semantics"@
}

/// The kind of element that a tag name stands for. Components are found
/// first, then SVG elements, web components, MathML elements; everything else
/// is an HTML element.
pub open spec fn spec_tag_kind(tag: Seq<char>) -> TagKind {
    if spec_is_component(tag) {
        TagKind::Component
    } else if spec_is_svg_element(tag) {
        TagKind::Svg
    } else if spec_is_web_component(tag) {
        TagKind::WebComponent
    } else if spec_is_math_ml_element(tag) {
        TagKind::Math
    } else {
        TagKind::Html
    }
}

pub fn is_component_chars(tag: &Vec<char>) -> (r: bool)
    ensures
        r == spec_is_component(tag@),
{
    tag.len() > 0 && 'A' <= tag[0] && tag[0] <= 'Z'
}


pub fn is_svg_element_chars(tag: &Vec<char>) -> (r: bool)
    ensures
        r == spec_is_svg_element(tag@),
{
    text_is(tag, "animate") ||
        text_is(tag, "animateMotion") ||
        text_is(tag, "animateTransform") ||
        text_is(tag, "circle") ||
        text_is(tag, "clipPath") ||
        text_is(tag, "defs") ||
        text_is(tag, "desc") ||
        text_is(tag, "discard") ||
        text_is(tag, "ellipse") ||
        text_is(tag, "feBlend") ||
        text_is(tag, "feColorMatrix") ||
        text_is(tag, "feComponentTransfer") ||
        text_is(tag, "feComposite") ||
        text_is(tag, "feConvolveMatrix") ||
        text_is(tag, "feDiffuseLighting") ||
        text_is(tag, "feDisplacementMap") ||
        text_is(tag, "feDistantLight") ||
        text_is(tag, "feDropShadow") ||
        text_is(tag, "feFlood") ||
        text_is(tag, "feFuncA") ||
        text_is(tag, "feFuncB") ||
        text_is(tag, "feFuncG") ||
        text_is(tag, "feFuncR") ||
        text_is(tag, "feGaussianBlur") ||
        text_is(tag, "feImage") ||
        text_is(tag, "feMerge") ||
        text_is(tag, "feMergeNode") ||
        text_is(tag, "feMorphology") ||
        text_is(tag, "feOffset") ||
        text_is(tag, "fePointLight") ||
        text_is(tag, "feSpecularLighting") ||
        text_is(tag, "feSpotLight") ||
        text_is(tag, "feTile") ||
        text_is(tag, "feTurbulence") ||
        text_is(tag, "filter") ||
        text_is(tag, "foreignObject") ||
        text_is(tag, "g") ||
        text_is(tag, "hatch") ||
        text_is(tag, "hatchpath") ||
        text_is(tag, "image") ||
        text_is(tag, "line") ||
        text_is(tag, "linearGradient") ||
        text_is(tag, "marker") ||
        text_is(tag, "mask") ||
        text_is(tag, "metadata") ||
        text_is(tag, "mpath") ||
        text_is(tag, "path") ||
        text_is(tag, "pattern") ||
        text_is(tag, "polygon") ||
        text_is(tag, "polyline") ||
        text_is(tag, "radialGradient") ||
        text_is(tag, "rect") ||
        text_is(tag, "set") ||
        text_is(tag, "stop") ||
        text_is(tag, "svg") ||
        text_is(tag, "switch") ||
        text_is(tag, "symbol") ||
        text_is(tag, "text") ||
        text_is(tag, "textPath") ||
        text_is(tag, "tspan") ||
        text_is(tag, "use") ||
        text_is(tag, "use_") ||
        text_is(tag, "view")
}


pub fn is_math_ml_element_chars(tag: &Vec<char>) -> (r: bool)
    ensures
        r == spec_is_math_ml_element(tag@),
{
    text_is(tag, "annotation") ||
        text_is(tag, "maction") ||
        text_is(tag, "math") ||
        text_is(tag, "menclose") ||
        text_is(tag, "merror") ||
        text_is(tag, "mfenced") ||
        text_is(tag, "mfrac") ||
        text_is(tag, "mi") ||
        text_is(tag, "mmultiscripts") ||
        text_is(tag, "mn") ||
        text_is(tag, "mo") ||
        text_is(tag, "mover") ||
        text_is(tag, "mpadded") ||
        text_is(tag, "mphantom") ||
        text_is(tag, "mprescripts") ||
        text_is(tag, "mroot") ||
        text_is(tag, "mrow") ||
        text_is(tag, "ms") ||
        text_is(tag, "mspace") ||
        text_is(tag, "msqrt") ||
        text_is(tag, "mstyle") ||
        text_is(tag, "msub") ||
        text_is(tag, "msubsup") ||
        text_is(tag, "msup") ||
        text_is(tag, "mtable") ||
        text_is(tag, "mtd") ||
        text_is(tag, "mtext") ||
        text_is(tag, "mtr") ||
        text_is(tag, "munder") ||
        text_is(tag, "munderover") ||
        text_is(tag, "semantics")
}

impl TagKind {
    /// Figures out the kind of element that the tag name stands for.
    pub fn from_chars(tag: &Vec<char>) -> (k: TagKind)
        ensures
            k == spec_tag_kind(tag@),
    {
        if is_component_chars(tag) {
            TagKind::Component
        } else if is_svg_element_chars(tag) {
            TagKind::Svg
        } else if contains_char(tag, '-') {
            TagKind::WebComponent
        } else if is_math_ml_element_chars(tag) {
            TagKind::Math
        } else {
            TagKind::Html
        }
    }

    /// Figures out the kind of element that the tag name stands for.
    pub fn from(tag: &str) -> (k: TagKind)
        ensures
            k == spec_tag_kind(tag@),
    {
        let t = chars_of(tag);
        TagKind::from_chars(&t)
    }
}

/// Whether the tag is a leptos component: its first character is an ASCII
/// uppercase letter.
pub fn is_component(tag: &str) -> (r: bool)
    ensures
        r == spec_is_component(tag@),
{
    let t = chars_of(tag);
    is_component_chars(&t)
}

/// Whether the tag is an SVG element, by the list of SVG element names.
pub fn is_svg_element(tag: &str) -> (r: bool)
    ensures
        r == spec_is_svg_element(tag@),
{
    let t = chars_of(tag);
    is_svg_element_chars(&t)
}

/// Whether the tag is a MathML element, by the list of MathML element names.
pub fn is_math_ml_element(tag: &str) -> (r: bool)
    ensures
        r == spec_is_math_ml_element(tag@),
{
    let t = chars_of(tag);
    is_math_ml_element_chars(&t)
}

/// Whether the tag is a web component: all web components hold a `-`.
pub fn is_web_component(tag: &str) -> (r: bool)
    ensures
        r == spec_is_web_component(tag@),
{
    let t = chars_of(tag);
    contains_char(&t, '-')
}

/// Whether the tag is an element unknown to leptos, that is a web component.
pub fn is_unknown_element(tag: &str) -> (r: bool)
    ensures
        r == spec_is_web_component(tag@),
{
    is_web_component(tag)
}

/// Where the generic arguments `<...>` that start at `p` end, counting
/// `depth` angle brackets that are open. A `>` right after a joint `-` is
/// part of an arrow `->`, not a closing bracket.
pub open spec fn angle_close(s: Seq<TokenTree>, p: int, depth: int) -> Option<int>
    decreases s.len() - p,
{
    if p < 0 || p >= s.len() {
        None
    } else if s[p].is_punct('<') {
        angle_close(s, p + 1, depth + 1)
    } else if s[p].is_punct('>') && !(p > 0 && s[p - 1].is_joint_punct('-')) {
        if depth <= 1 {
            Some(p + 1)
        } else {
            angle_close(s, p + 1, depth - 1)
        }
    } else {
        angle_close(s, p + 1, depth)
    }
}

proof fn lemma_angle_close_bounds(s: Seq<TokenTree>, p: int, depth: int)
    requires
        0 <= p,
    ensures
        angle_close(s, p, depth) matches Some(q) ==> p < q <= s.len(),
    decreases s.len() - p,
{
    if 0 <= p < s.len() {
        if s[p].is_punct('<') {
            lemma_angle_close_bounds(s, p + 1, depth + 1);
        } else if s[p].is_punct('>') && !(p > 0 && s[p - 1].is_joint_punct('-')) {
            if depth > 1 {
                lemma_angle_close_bounds(s, p + 1, depth - 1);
            }
        } else {
            lemma_angle_close_bounds(s, p + 1, depth);
        }
    }
}

/// Inside the generics of a component's path `name :: <...>`, whose `<` is
/// at `k` of `s` and whose `>` closes before `q`, every position from the
/// one `p` on is inside angle brackets: the depth counted from the start of
/// the path is the depth `d` that the search for the closing `>` has
/// reached, and it never falls to zero before the end.
proof fn lemma_generics_depth(s: Seq<TokenTree>, k: int, q: int, path: Seq<Tok>, p: int, d: int)
    requires
        0 <= k < p < q <= s.len(),
        path.len() == 3 + q - k,
        forall|j: int| 0 <= j < q - k ==> path[3 + j] == tree_view(#[trigger] s[k + j]),
        angle_close(s, p, d) == Some(q),
        d >= 1,
        angle_depth(path, 3 + p - k) == d,
    ensures
        forall|i: int| 3 + p - k <= i < path.len() ==> angle_depth(path, i) >= 1,
    decreases q - p,
{
    if p < q - 1 {
        let i = 3 + p - k;
        assert(path[i] == tree_view(s[k + (p - k)]));
        assert(path[i - 1] == tree_view(s[k + (p - 1 - k)]));
        let nd = if s[p].is_punct('<') {
            d + 1
        } else if s[p].is_punct('>') && !(p > 0 && s[p - 1].is_joint_punct('-')) {
            d - 1
        } else {
            d
        };
        assert(angle_depth(path, i + 1) == nd);
        lemma_generics_depth(s, k, q, path, p + 1, nd);
    }
}

/// The path of a parsed component, its name then `::` and the generics that
/// close at `q`, has no parenthesized arguments outside its generics.
proof fn lemma_generics_path_plain(s: Seq<TokenTree>, k: int, q: int, name: Tok)
    requires
        0 <= k < s.len(),
        s[k].is_punct('<'),
        angle_close(s, k, 0) == Some(q),
        name is Ident,
    ensures
        first_fn_generics(seq![name] + colon2(Span::CallSite) + stream_view(s.subrange(k, q)), 0) is None,
{
    lemma_angle_close_bounds(s, k + 1, 1);
    let g = stream_view(s.subrange(k, q));
    let path = seq![name] + colon2(Span::CallSite) + g;
    lemma_stream_view(s.subrange(k, q));
    assert forall|j: int| 0 <= j < q - k implies path[3 + j] == tree_view(#[trigger] s[k + j]) by {
        assert(s.subrange(k, q)[j] == s[k + j]);
    }
    assert(path[3] == tree_view(s[k + 0]));
    assert(path[0] == name);
    assert(path[1] == Tok::Punct(':', Spacing::Joint, Span::CallSite));
    assert(path[2] == Tok::Punct(':', Spacing::Alone, Span::CallSite));
    assert(angle_depth(path, 0) == 0);
    assert(angle_depth(path, 1) == 0);
    assert(angle_depth(path, 2) == 0);
    assert(angle_depth(path, 3) == 0);
    assert(angle_depth(path, 4) == 1);
    lemma_generics_depth(s, k, q, path, k + 1, 1);
    assert forall|i: int| 0 <= i < path.len() implies !fn_generics_at(path, i) by {
        if 4 <= i < path.len() {
            assert(angle_depth(path, i) >= 1);
        }
    }
    lemma_first_fn_generics_none(path);
}

/// Where the tag at `p` ends: after its kebab ident, or, for a component
/// with generics, after the `>` that closes them. `None` where there is no
/// tag, or where the macro aborts: a component followed by `::`, generics
/// that never close, or generics that `syn` does not take for generic
/// arguments.
pub open spec fn tag_end(inp: Input, p: int) -> Option<int> {
    match kebab_end(inp.s(), p) {
        None => None,
        Some(k) => if spec_tag_kind(concat_text(inp.s().subrange(p, k))) == TagKind::Component {
            if inp.spec_peek_punct2(k, ':', ':') {
                None
            } else if inp.spec_peek_punct(k, '<') {
                match angle_close(inp.s(), k, 0) {
                    Some(q) => if syn_generics_ok(spelled(stream_view(inp.s().subrange(k, q)))) {
                        Some(q)
                    } else {
                        None
                    },
                    None => None,
                }
            } else {
                Some(k)
            }
        } else {
            Some(k)
        },
    }
}

/// Why the tag of a component at `p` stops the macro: a `::` after its
/// name, or generics that never close.
pub open spec fn tag_abort_report(inp: Input, p: int) -> Report {
    let k = kebab_end(inp.s(), p)->0;
    if inp.spec_peek_punct2(k, ':', ':') {
        report_help(
            inp.spec_span_at(k),
            "unexpected token `::`"@,
            "turbofish syntax is not used for component generics, place angle brackets directly after the component name"@,
        )
    } else {
        report(inp.spec_span_at(k), "failed to parse component generics"@)
    }
}

/// The name of an element: an HTML, SVG or MathML element, a leptos
/// component (with optional generics, kept with a leading `::` as the
/// `::<...>` tokens), or a web component (a kebab ident, as it holds a `-`).
#[derive(Debug)]
pub enum Tag {
    Html(TokenTree),
    Component(TokenTree, Option<Vec<TokenTree>>),
    Svg(TokenTree),
    Math(TokenTree),
    WebComponent(KebabIdent),
}

impl Tag {
    pub open spec fn spec_kind(self) -> TagKind {
        match self {
            Tag::Html(_) => TagKind::Html,
            Tag::Component(..) => TagKind::Component,
            Tag::Svg(_) => TagKind::Svg,
            Tag::Math(_) => TagKind::Math,
            Tag::WebComponent(_) => TagKind::WebComponent,
        }
    }

    /// The kind of the tag.
    pub fn kind(&self) -> (k: TagKind)
        ensures
            k == self.spec_kind(),
    {
        match self {
            Tag::Html(_) => TagKind::Html,
            Tag::Component(..) => TagKind::Component,
            Tag::Svg(_) => TagKind::Svg,
            Tag::Math(_) => TagKind::Math,
            Tag::WebComponent(_) => TagKind::WebComponent,
        }
    }

    pub open spec fn spec_span(self) -> Span {
        match self {
            Tag::Html(i) => i.spec_span(),
            Tag::Component(i, _) => i.spec_span(),
            Tag::Svg(i) => i.spec_span(),
            Tag::Math(i) => i.spec_span(),
            Tag::WebComponent(k) => k.spec_span(),
        }
    }

    /// The span of the tag's name; generics are not included.
    pub fn span(&self) -> (sp: Span)
        ensures
            sp == self.spec_span(),
    {
        match self {
            Tag::Html(i) => i.span(),
            Tag::Component(i, _) => i.span(),
            Tag::Svg(i) => i.span(),
            Tag::Math(i) => i.span(),
            Tag::WebComponent(k) => k.span(),
        }
    }

    /// The text of the tag's name, as it is expanded.
    pub open spec fn name_text(self) -> Seq<char> {
        match self {
            Tag::Html(i) => i.text(),
            Tag::Component(i, _) => i.text(),
            Tag::Svg(i) => i.text(),
            Tag::Math(i) => i.text(),
            Tag::WebComponent(k) => k.repr_view(),
        }
    }

    /// The tag's name as a kebab ident; the name is a word, as that of
    /// every parsed tag is.
    pub fn ident(&self) -> (k: KebabIdent)
        requires
            is_word(self.name_text()),
        ensures
            k.repr_view() == self.name_text(),
    {
        match self {
            Tag::Html(i) => Tag::ident_of(i),
            Tag::Component(i, _) => Tag::ident_of(i),
            Tag::Svg(i) => Tag::ident_of(i),
            Tag::Math(i) => Tag::ident_of(i),
            Tag::WebComponent(k) => k.clone_ident(),
        }
    }

    fn ident_of(t: &TokenTree) -> (k: KebabIdent)
        requires
            is_word(t.text()),
        ensures
            k.repr_view() == t.text(),
    {
        match t {
            TokenTree::Ident { text, span } => KebabIdent::from_ident(text, *span),
            TokenTree::Literal { text, span } => KebabIdent::from_ident(text, *span),
            TokenTree::Punct { ch, span, .. } => {
                let mut text: Vec<char> = Vec::new();
                text.push(*ch);
                KebabIdent::from_ident(&text, *span)
            },
            TokenTree::Group { span, .. } => KebabIdent::from_ident(&Vec::new(), *span),
        }
    }

    /// Parses a tag: a kebab ident, whose repr decides its kind. A component
    /// may be followed by generics `<...>`, up to the `>` that closes them,
    /// which `syn` must take for generic arguments; they are kept with a
    /// leading `::`, and the component's path has no parenthesized
    /// arguments outside them. A `::` after the name aborts, as do generics
    /// that never close or do not parse.
    pub fn parse(inp: &Input, pos: usize) -> (r: Result<(Tag, usize), ParseError>)
        ensures
            kebab_end(inp.s(), pos as int) is None <==> r matches Err(ParseError::Fail(_)),
            r matches Err(ParseError::Fail(d)) ==> d@ == report(inp.spec_span_at(pos as int), "expected a kebab-cased ident"@),
            r matches Err(ParseError::Abort(d)) ==> d@ == tag_abort_report(*inp, pos as int),
            r matches Ok((t, q)) ==> {
                let k = kebab_end(inp.s(), pos as int)->0;
                let repr = concat_text(inp.s().subrange(pos as int, k));
                &&& pos < k <= q <= inp.len()
                &&& t.spec_kind() == spec_tag_kind(repr)
                &&& (t is WebComponent ==> t.name_text() == repr)
                &&& (!(t is WebComponent) ==> t.name_text() == snake_text(repr))
                &&& (t matches Tag::Component(_, g) ==> (g is Some <==> inp.spec_peek_punct(k, '<')))
                &&& (!(t matches Tag::Component(_, Some(_))) ==> q == k)
                &&& (t matches Tag::Component(_, Some(g)) ==> stream_view(g@) == colon2(Span::CallSite) + stream_view(
                    inp.s().subrange(k, q as int),
                ))
                &&& tag_end(*inp, pos as int) == Some(q as int)
            },
            kebab_end(inp.s(), pos as int) is Some ==> (r is Ok <==> tag_end(*inp, pos as int) is Some),
            r matches Ok((Tag::Component(n, g), _)) ==> first_fn_generics(component_path(n, g), 0) is None,
    {
        let (ident, k) = match parse_kebab_ident(inp, pos) {
            Ok(x) => x,
            Err(e) => {
                return Err(e);
            },
        };
        proof {
            lemma_kebab_end_bounds(inp.s(), pos as int);
        }
        let kind = TagKind::from_chars(ident.repr_chars());
        let span = ident.span();
        match kind {
            TagKind::Html => Ok((Tag::Html(TokenTree::Ident { text: snake_chars(ident.repr_chars()), span }), k)),
            TagKind::Svg => Ok((Tag::Svg(TokenTree::Ident { text: snake_chars(ident.repr_chars()), span }), k)),
            TagKind::Math => Ok((Tag::Math(TokenTree::Ident { text: snake_chars(ident.repr_chars()), span }), k)),
            TagKind::WebComponent => Ok((Tag::WebComponent(ident), k)),
            TagKind::Component => {
                if inp.peek_punct2(k, ':', ':') {
                    return Err(ParseError::Abort(Diagnostic::with_help(
                        inp.span_at(k),
                        "unexpected token `::`",
                        "turbofish syntax is not used for component generics, place angle brackets directly after the component name",
                    )));
                }
                let name = TokenTree::Ident { text: snake_chars(ident.repr_chars()), span };
                if inp.peek_punct(k, '<') {
                    match parse_generics(inp, k) {
                        Some((generics, q)) => {
                            let mut text: Vec<char> = Vec::new();
                            spell(&generics, &mut text);
                            if parses_as_generics(&text) {
                                let mut with_colon2: Vec<TokenTree> = empty_stream();
                                push_colon2(&mut with_colon2, Span::CallSite);
                                push_stream(&mut with_colon2, generics);
                                proof {
                                    lemma_generics_path_plain(inp.s(), k as int, q as int, tree_view(name));
                                    assert(component_path(name, Some(with_colon2)) =~= seq![tree_view(name)]
                                        + colon2(Span::CallSite) + stream_view(inp.s().subrange(k as int, q as int)));
                                }
                                Ok((Tag::Component(name, Some(with_colon2)), q))
                            } else {
                                Err(ParseError::Abort(Diagnostic::new(inp.span_at(k), "failed to parse component generics")))
                            }
                        },
                        None => Err(ParseError::Abort(Diagnostic::new(inp.span_at(k), "failed to parse component generics"))),
                    }
                } else {
                    proof {
                        let path = component_path(name, None);
                        assert(!fn_generics_at(path, 0));
                        assert(first_fn_generics(path, 1) is None);
                    }
                    Ok((Tag::Component(name, None), k))
                }
            },
        }
    }
}

/// Whether `syn` takes `text` for the generic arguments of a path segment,
/// `<...>`.
pub uninterp spec fn syn_generics_ok(text: Seq<char>) -> bool;

/// `syn::parse_str::<syn::AngleBracketedGenericArguments>` on `text`: whether
/// it parses, all of it, as generic arguments.
#[verifier::external_body]
fn parses_as_generics(text: &Vec<char>) -> (r: bool)
    ensures
        r == syn_generics_ok(text@),
{
    let s: String = text.iter().collect();
    syn::parse_str::<syn::AngleBracketedGenericArguments>(&s).is_ok()
}

/// The generic arguments `<...>` at `pos`, up to the matching `>`.
fn parse_generics(inp: &Input, pos: usize) -> (r: Option<(Vec<TokenTree>, usize)>)
    requires
        inp.spec_peek_punct(pos as int, '<'),
    ensures
        r is Some <==> angle_close(inp.s(), pos as int, 0) is Some,
        r matches Some((g, q)) ==> q as int == angle_close(inp.s(), pos as int, 0)->0 && pos < q <= inp.len()
            && g@.len() == q - pos,
        r matches Some((g, q)) ==> stream_view(g@) == stream_view(inp.s().subrange(pos as int, q as int)),
{
    let mut g: Vec<TokenTree> = Vec::new();
    let mut p = pos;
    let mut depth: usize = 0;
    proof {
        assert(stream_view(g@) =~= stream_view(inp.s().subrange(pos as int, p as int)));
        lemma_angle_close_bounds(inp.s(), pos as int, 0);
    }
    while p < inp.toks.len()
        invariant
            pos <= p <= inp.len(),
            g@.len() == p - pos,
            depth <= p - pos,
            angle_close(inp.s(), p as int, depth as int) == angle_close(inp.s(), pos as int, 0),
            stream_view(g@) == stream_view(inp.s().subrange(pos as int, p as int)),
            p > pos ==> depth >= 1,
            inp.spec_peek_punct(pos as int, '<'),
        decreases inp.len() - p,
    {
        let is_open = inp.peek_punct(p, '<');
        let is_close = inp.peek_punct(p, '>') && !(p > 0 && inp.peek_punct2(p - 1, '-', '>'));
        let t = inp.toks[p].deep_clone();
        proof {
            lemma_stream_view_push(g@, t);
            lemma_stream_view_push(inp.s().subrange(pos as int, p as int), inp.s()[p as int]);
            assert(inp.s().subrange(pos as int, p + 1) =~= inp.s().subrange(pos as int, p as int).push(inp.s()[p as int]));
        }
        g.push(t);
        if is_open {
            depth = depth + 1;
        } else if is_close {
            if depth <= 1 {
                return Some((g, p + 1));
            }
            depth = depth - 1;
        }
        p = p + 1;
    }
    None
}

} // verus!
