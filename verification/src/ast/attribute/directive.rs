//! Directives like `on:click={..}`, `class:primary`, `use:d`.

use vstd::prelude::*;

use crate::ast::ident::{
    braced_fail_report, braced_kebab_at, concat_text, is_str_lit, kebab_end, snake_text, BracedKebabIdent, KebabIdentOrStr,
};
use crate::ast::value::{missing_value_reports, value_after_eq, value_or_missing_end, Value};
use crate::parse::{extends, lemma_input_len, report, reports, Diagnostic, Input, ParseError, Report};
use crate::span::{join, spec_join, Span};
use crate::token::{stream_view, tree_view, Delimiter, Tok, TokenTree};

verus! {

broadcast use lemma_input_len, vstd::std_specs::vec::group_vec_axioms;

/// Where an optional `:modifier` at `p` ends; `None` if a `:` has no
/// identifier after it.
pub open spec fn modifier_end(s: Seq<TokenTree>, p: int) -> Option<int> {
    if 0 <= p < s.len() && s[p].is_punct(':') {
        if p + 1 < s.len() && s[p + 1] is Ident {
            Some(p + 2)
        } else {
            None
        }
    } else {
        Some(p)
    }
}

/// Where the key of a directive at `p` ends: a string literal or a kebab
/// ident.
pub open spec fn key_end(s: Seq<TokenTree>, p: int) -> Option<int> {
    if 0 <= p < s.len() && is_str_lit(s[p]) {
        Some(p + 1)
    } else {
        kebab_end(s, p)
    }
}

/// Where the directive at `p` ends, if one parses there.
///
/// `dir:{key}:modifier` or `dir:key:modifier=value`, the modifier and the
/// `=value` being optional.
pub open spec fn directive_end(inp: Input, p: int) -> Option<int> {
    let s = inp.s();
    if !(0 <= p && p + 1 < s.len() && s[p] is Ident && s[p + 1].is_punct(':')) {
        None
    } else if p + 2 < s.len() && s[p + 2].is_group(Delimiter::Brace) {
        if braced_kebab_at(s, p + 2) {
            modifier_end(s, p + 3)
        } else {
            None
        }
    } else {
        match key_end(s, p + 2) {
            None => None,
            Some(k) => match modifier_end(s, k) {
                None => None,
                Some(m) => if 0 <= m < s.len() && s[m].is_punct('=') {
                    Some(value_or_missing_end(s, m + 1))
                } else {
                    Some(m)
                },
            },
        }
    }
}

/// What parsing the directive at `p` reports: a missing value after `=`.
pub open spec fn directive_reports(inp: Input, p: int) -> Seq<Report> {
    let s = inp.s();
    if p + 2 < s.len() && s[p + 2].is_group(Delimiter::Brace) {
        Seq::empty()
    } else {
        match key_end(s, p + 2) {
            Some(k) => match modifier_end(s, k) {
                Some(m) => if 0 <= m < s.len() && s[m].is_punct('=') {
                    missing_value_reports(inp, m + 1, s[m].spec_span())
                } else {
                    Seq::empty()
                },
                None => Seq::empty(),
            },
            None => Seq::empty(),
        }
    }
}

/// Why no directive parses at `p`, where a name and `:` are: a brace group
/// that holds no kebab ident, or more; a key that is no string and no kebab
/// ident; or a `:` after it with no identifier.
pub open spec fn directive_fail_report(inp: Input, p: int) -> Report {
    let s = inp.s();
    if p + 2 < s.len() && s[p + 2].is_group(Delimiter::Brace) {
        if !braced_kebab_at(s, p + 2) {
            braced_fail_report(inp, p + 2)
        } else {
            report(inp.spec_span_at(p + 4), "expected identifier"@)
        }
    } else {
        match key_end(s, p + 2) {
            None => report(inp.spec_span_at(p + 2), "expected a kebab-cased ident"@),
            Some(k) => report(inp.spec_span_at(k + 1), "expected identifier"@),
        }
    }
}

/// A directive: `dir:key`, with an optional `:modifier` and `=value`.
///
/// The shorthand `dir:{key}` stands for `dir:key={key}`.
#[derive(Debug)]
pub struct Directive {
    pub dir: TokenTree,
    pub key: KebabIdentOrStr,
    pub modifier: Option<TokenTree>,
    pub value: Option<Value>,
}

/// What an optional `:modifier` at `p` holds: the identifier after the
/// `:`, or nothing if no `:` is there.
pub open spec fn modifier_parsed(s: Seq<TokenTree>, p: int, m: Option<TokenTree>) -> bool {
    if 0 <= p < s.len() && s[p].is_punct(':') {
        m matches Some(t) && t is Ident && tree_view(t) == tree_view(s[p + 1]) && t.spec_span() == s[p + 1].spec_span()
    } else {
        m is None
    }
}

/// What a directive parsed at `p` up to `q` holds.
///
/// The name is the identifier at `p`. For the shorthand `dir:{key}`, the key
/// is the braced kebab ident and the value the block `{key}`, snake_cased.
/// Otherwise the key is the string literal or kebab ident after the `:`,
/// and the value is what follows `=`, or none.
pub open spec fn directive_parsed(inp: Input, p: int, d: Directive, q: int) -> bool {
    let s = inp.s();
    &&& d.dir is Ident
    &&& d.dir.text() == s[p].text()
    &&& d.dir.spec_span() == s[p].spec_span()
    &&& if p + 2 < s.len() && s[p + 2].is_group(Delimiter::Brace) {
        &&& d.key is KebabIdent
        &&& d.key->KebabIdent_0.repr_view() == concat_text(s[p + 2].group_stream())
        &&& d.value is Some
        &&& d.value->0 is Block
        &&& d.value->0->Block_span == s[p + 2].spec_span()
        &&& stream_view(d.value->0->Block_tokens@) == seq![
            Tok::Ident(snake_text(d.key->KebabIdent_0.repr_view()), d.key->KebabIdent_0.spec_span()),
        ]
        &&& modifier_parsed(s, p + 3, d.modifier)
    } else {
        let k = key_end(s, p + 2)->0;
        let m = modifier_end(s, k)->0;
        &&& (p + 2 < s.len() && is_str_lit(s[p + 2])) ==> (d.key is Str && tree_view(d.key->Str_0) == tree_view(s[p + 2]))
        &&& !(p + 2 < s.len() && is_str_lit(s[p + 2])) ==> (d.key is KebabIdent && d.key->KebabIdent_0.repr_view()
            == concat_text(s.subrange(p + 2, k)))
        &&& modifier_parsed(s, k, d.modifier)
        &&& if 0 <= m < s.len() && s[m].is_punct('=') {
            d.value is Some && value_after_eq(inp, m + 1, s[m].spec_span(), d.value->0, q)
        } else {
            d.value is None
        }
    }
}

fn parse_modifier(inp: &Input, pos: usize) -> (r: Result<(Option<TokenTree>, usize), ParseError>)
    ensures
        r is Ok <==> modifier_end(inp.s(), pos as int) is Some,
        r matches Err(e) ==> e is Fail,
        r matches Ok((m, q)) ==> q as int == modifier_end(inp.s(), pos as int)->0 && (m is Some <==> q
            == pos + 2) && (m matches Some(t) ==> t is Ident && tree_view(t) == tree_view(
            inp.s()[pos + 1],
        ) && t.text() == inp.s()[pos + 1].text() && t.spec_span() == inp.s()[pos + 1].spec_span()),
        r matches Ok((m, q)) ==> modifier_parsed(inp.s(), pos as int, m),
        r matches Err(ParseError::Fail(d)) ==> d@ == report(inp.spec_span_at(pos + 1), "expected identifier"@),
{
    if inp.peek_punct(pos, ':') {
        if inp.peek_ident_token(pos + 1) {
            Ok((Some(inp.toks[pos + 1].deep_clone()), pos + 2))
        } else {
            Err(inp.error(pos + 1, "expected identifier"))
        }
    } else {
        Ok((None, pos))
    }
}

impl Directive {
    /// Parses a directive at `pos`. Fails where [`directive_end`] finds none.
    pub fn parse(inp: &Input, pos: usize, diags: &mut Vec<Diagnostic>) -> (r: Result<(Directive, usize), ParseError>)
        ensures
            r is Ok <==> directive_end(*inp, pos as int) is Some,
            r matches Err(e) ==> e is Fail,
            extends(old(diags)@, final(diags)@),
            r is Err ==> final(diags)@ == old(diags)@,
            r matches Err(ParseError::Fail(d)) ==> d@ == if !(pos < inp.len() && inp.s()[pos as int] is Ident) {
                report(inp.spec_span_at(pos as int), "expected identifier"@)
            } else if !inp.spec_peek_punct(pos + 1, ':') {
                report(inp.spec_span_at(pos + 1), "expected `:`"@)
            } else {
                directive_fail_report(*inp, pos as int)
            },
            r is Ok ==> reports(final(diags)@) == reports(old(diags)@) + directive_reports(*inp, pos as int),
            r matches Ok((d, q)) ==> {
                &&& q as int == directive_end(*inp, pos as int)->0
                &&& pos + 2 < q <= inp.len()
                &&& d.dir is Ident
                &&& d.dir.text() == inp.s()[pos as int].text()
                &&& d.dir.spec_span() == inp.s()[pos as int].spec_span()
                &&& (pos + 2 < inp.len() && inp.s()[pos + 2].is_group(Delimiter::Brace) ==> (d.value
                    matches Some(v) && v is Block && d.key is KebabIdent))
                &&& (pos + 2 < inp.len() && is_str_lit(inp.s()[pos + 2]) ==> d.key is Str)
                &&& directive_parsed(*inp, pos as int, d, q as int)
            },
    {
        assert(reports(diags@) + Seq::<Report>::empty() =~= reports(diags@));
        if !inp.peek_ident_token(pos) {
            return Err(inp.error(pos, "expected identifier"));
        }
        if !inp.peek_punct(pos + 1, ':') {
            return Err(inp.error(pos + 1, "expected `:`"));
        }
        let dir = inp.toks[pos].deep_clone();
        if inp.peek_group(pos + 2, Delimiter::Brace) {
            match BracedKebabIdent::parse(inp, pos + 2) {
                Ok((b, k)) => {
                    let key = KebabIdentOrStr::KebabIdent(b.ident.clone_ident());
                    let value = b.into_block_value();
                    match parse_modifier(inp, k) {
                        Ok((modifier, q)) => Ok((Directive { dir, key, modifier, value: Some(value) }, q)),
                        Err(e) => Err(e),
                    }
                },
                Err(e) => Err(e),
            }
        } else {
            match KebabIdentOrStr::parse(inp, pos + 2) {
                Ok((key, k)) => match parse_modifier(inp, k) {
                    Ok((modifier, m)) => {
                        if inp.peek_punct(m, '=') {
                            let eq_span = inp.span_at(m);
                            let (value, q) = Value::parse_or_emit_err(inp, m + 1, eq_span, diags);
                            Ok((Directive { dir, key, modifier, value: Some(value) }, q))
                        } else {
                            Ok((Directive { dir, key, modifier, value: None }, m))
                        }
                    },
                    Err(e) => Err(e),
                },
                Err(e) => Err(e),
            }
        }
    }

    /// Whether the directive's name is an identifier, as parsing makes it.
    pub fn dir_is_ident(&self) -> (r: bool)
        ensures
            r == (self.dir is Ident),
    {
        match &self.dir {
            TokenTree::Ident { .. } => true,
            _ => false,
        }
    }

    pub open spec fn spec_span(self) -> Span {
        match self.value {
            Some(v) => spec_join(self.dir.spec_span(), v.spec_span()),
            None => spec_join(self.dir.spec_span(), self.key.spec_span()),
        }
    }

    /// The span from the directive's name to its value, or to its key if it
    /// has no value.
    pub fn span(&self) -> (s: Span)
        ensures
            s == self.spec_span(),
    {
        match &self.value {
            Some(v) => join(self.dir.span(), v.span()),
            None => join(self.dir.span(), self.key.span()),
        }
    }
}

} // verus!
