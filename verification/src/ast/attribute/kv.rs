//! `key = value` attributes.

use vstd::prelude::*;

use crate::ast::ident::{
    braced_fail_report, braced_kebab_at, concat_text, kebab_end, parse_kebab_ident, snake_text, BracedKebabIdent,
    KebabIdent,
};
use crate::ast::value::{missing_value_reports, value_after_eq, value_or_missing_end, Value};
use crate::parse::{extends, lemma_input_len, report, reports, Diagnostic, Input, ParseError, Report};
use crate::span::{join, spec_join, Span};
use crate::token::{ident, stream_view, tree_view, Delimiter, Tok, TokenTree};

verus! {

broadcast use lemma_input_len, vstd::std_specs::vec::group_vec_axioms;

/// Where the key-value attribute at `p` ends, if one is there.
///
/// A brace group must hold exactly one kebab ident (the shorthand `{key}`).
/// Otherwise a kebab ident, then either `=` and a value, or nothing.
pub open spec fn kv_end(inp: Input, p: int) -> Option<int> {
    let s = inp.s();
    if 0 <= p < s.len() && s[p].is_group(Delimiter::Brace) {
        if braced_kebab_at(s, p) {
            Some(p + 1)
        } else {
            None
        }
    } else {
        match kebab_end(s, p) {
            None => None,
            Some(k) => if 0 <= k < s.len() && s[k].is_punct('=') {
                Some(value_or_missing_end(s, k + 1))
            } else {
                Some(k)
            },
        }
    }
}

/// What parsing the key-value attribute at `p` reports: a missing value
/// after `=`.
pub open spec fn kv_reports(inp: Input, p: int) -> Seq<Report> {
    let s = inp.s();
    if 0 <= p < s.len() && s[p].is_group(Delimiter::Brace) {
        Seq::empty()
    } else {
        match kebab_end(s, p) {
            Some(k) => if 0 <= k < s.len() && s[k].is_punct('=') {
                missing_value_reports(inp, k + 1, s[k].spec_span())
            } else {
                Seq::empty()
            },
            None => Seq::empty(),
        }
    }
}

/// Why no key-value attribute parses at `p`: a brace group that holds no
/// kebab ident alone, or no kebab ident.
pub open spec fn kv_fail_report(inp: Input, p: int) -> Report {
    if inp.spec_peek_group(p, Delimiter::Brace) {
        braced_fail_report(inp, p)
    } else {
        report(inp.spec_span_at(p), "expected a kebab-cased ident"@)
    }
}

/// A `key = value` attribute: a normal `key=value`, a shorthand `{key}`
/// (standing for `key={key}`), or a boolean attribute `checked` (standing
/// for `checked=true`).
#[derive(Debug)]
pub struct KvAttr {
    key: KebabIdent,
    value: Value,
}

impl KvAttr {
    pub fn new(key: KebabIdent, value: Value) -> (kv: KvAttr)
        ensures
            kv.spec_key() == key,
            kv.spec_value() == value,
    {
        KvAttr { key, value }
    }

    pub closed spec fn spec_key(self) -> KebabIdent {
        self.key
    }

    pub closed spec fn spec_value(self) -> Value {
        self.value
    }

    pub fn key(&self) -> (k: &KebabIdent)
        ensures
            *k == self.spec_key(),
    {
        &self.key
    }

    pub fn value(&self) -> (v: &Value)
        ensures
            *v == self.spec_value(),
    {
        &self.value
    }

    pub open spec fn spec_span(self) -> Span {
        spec_join(self.spec_key().spec_span(), self.spec_value().spec_span())
    }

    /// The span from the key to the value.
    pub fn span(&self) -> (s: Span)
        ensures
            s == self.spec_span(),
    {
        join(self.key.span(), self.value.span())
    }

    /// Parses a key-value attribute at `pos`. Fails, consuming nothing, where
    /// `kv_end` finds none. A missing value after `=` is reported and
    /// stood in for, see [`Value::parse_or_emit_err`].
    pub fn parse(inp: &Input, pos: usize, diags: &mut Vec<Diagnostic>) -> (r: Result<(KvAttr, usize), ParseError>)
        ensures
            r is Ok <==> kv_end(*inp, pos as int) is Some,
            r matches Err(e) ==> e is Fail,
            r is Err ==> final(diags)@ == old(diags)@,
            extends(old(diags)@, final(diags)@),
            r is Ok ==> reports(final(diags)@) == reports(old(diags)@) + kv_reports(*inp, pos as int),
            r matches Err(ParseError::Fail(d)) ==> d@ == kv_fail_report(*inp, pos as int),
            r matches Ok((kv, q)) ==> {
                &&& q as int == kv_end(*inp, pos as int)->0
                &&& pos < q <= inp.len()
                &&& kv_parsed(*inp, pos as int, kv.spec_key(), kv.spec_value(), q as int)
            },
    {
        match parse_kebab_or_braced_or_bool(inp, pos, diags) {
            Ok((key, value, q)) => Ok((KvAttr::new(key, value), q)),
            Err(e) => Err(e),
        }
    }
}

/// What a key-value attribute parsed at `p` up to `q` holds: for `{key}`,
/// the key and the block `{key}`, snake_cased; else the kebab ident, and the
/// value after `=` or `true`.
pub open spec fn kv_parsed(inp: Input, p: int, key: KebabIdent, value: Value, q: int) -> bool {
    if p < inp.len() && inp.s()[p].is_group(Delimiter::Brace) {
        &&& key.repr_view() == concat_text(inp.s()[p].group_stream())
        &&& value matches Value::Block { tokens, span } && span == inp.s()[p].spec_span() && stream_view(tokens@)
            == seq![Tok::Ident(snake_text(key.repr_view()), key.spec_span())]
    } else {
        let k = kebab_end(inp.s(), p)->0;
        &&& key.repr_view() == concat_text(inp.s().subrange(p, k))
        &&& if k < inp.len() && inp.s()[k].is_punct('=') {
            value_after_eq(inp, k + 1, inp.s()[k].spec_span(), value, q)
        } else {
            value matches Value::Lit(t) && tree_view(t) == Tok::Ident("true"@, Span::CallSite)
        }
    }
}

/// Parses what attributes with a key and a value accept: a normal
/// `key={value}` pair, a shorthand `{key}` standing for `key={key}`, or a
/// boolean attribute `key` standing for `key=true`; the key may be a kebab
/// ident. Fails, consuming nothing, where `kv_end` finds none.
pub fn parse_kebab_or_braced_or_bool(inp: &Input, pos: usize, diags: &mut Vec<Diagnostic>) -> (r: Result<(KebabIdent, Value, usize), ParseError>)
    ensures
        r is Ok <==> kv_end(*inp, pos as int) is Some,
        r matches Err(e) ==> e is Fail,
        r is Err ==> final(diags)@ == old(diags)@,
        extends(old(diags)@, final(diags)@),
        r is Ok ==> reports(final(diags)@) == reports(old(diags)@) + kv_reports(*inp, pos as int),
        r matches Err(ParseError::Fail(d)) ==> d@ == kv_fail_report(*inp, pos as int),
        r matches Ok((key, value, q)) ==> {
            &&& q as int == kv_end(*inp, pos as int)->0
            &&& pos < q <= inp.len()
            &&& kv_parsed(*inp, pos as int, key, value, q as int)
        },
{
    assert(reports(diags@) + Seq::<Report>::empty() =~= reports(diags@));
    if inp.peek_group(pos, Delimiter::Brace) {
        match BracedKebabIdent::parse(inp, pos) {
            Ok((b, q)) => {
                let key = b.ident.clone_ident();
                let value = b.into_block_value();
                return Ok((key, value, q));
            },
            Err(e) => {
                return Err(e);
            },
        }
    }
    match parse_kebab_ident(inp, pos) {
        Ok((key, k)) => {
            if inp.peek_punct(k, '=') {
                let eq_span = inp.span_at(k);
                let (value, q) = Value::parse_or_emit_err(inp, k + 1, eq_span, diags);
                Ok((key, value, q))
            } else {
                Ok((key, Value::Lit(ident("true", Span::CallSite)), k))
            }
        },
        Err(e) => Err(e),
    }
}

} // verus!
