//! Literal tokens, classified as `syn` classifies them.

use vstd::prelude::*;

verus! {

/// The kinds of literal that the macro tells apart.
#[derive(Clone, Copy, Debug, PartialEq, Eq, Structural)]
pub enum LitKind {
    Str,
    Int,
    Float,
    Other,
}

/// The kind that `syn::Lit::new` gives a literal token of this text.
pub uninterp spec fn syn_lit_kind(text: Seq<char>) -> LitKind;

/// `syn::Lit::new` on the literal token spelled `text`, reduced to its kind.
/// Text that is no literal token is of kind `Other`.
#[verifier::external_body]
pub(crate) fn literal_kind(text: &Vec<char>) -> (k: LitKind)
    ensures
        k == syn_lit_kind(text@),
{
    let s: String = text.iter().collect();
    match s.parse::<proc_macro2::Literal>() {
        Ok(lit) => match syn::Lit::new(lit) {
            syn::Lit::Str(_) => LitKind::Str,
            syn::Lit::Int(_) => LitKind::Int,
            syn::Lit::Float(_) => LitKind::Float,
            _ => LitKind::Other,
        },
        Err(_) => LitKind::Other,
    }
}

} // verus!

verus! {

/// The value that `syn::LitStr::value` gives a string literal token of this
/// text: its contents, escapes resolved.
pub uninterp spec fn syn_str_value(text: Seq<char>) -> Seq<char>;

/// `syn::LitStr::value` on the string literal token spelled `text`.
#[verifier::external_body]
pub(crate) fn str_literal_value(text: &Vec<char>) -> (r: Vec<char>)
    requires
        syn_lit_kind(text@) == LitKind::Str,
    ensures
        r@ == syn_str_value(text@),
{
    let s: String = text.iter().collect();
    match s.parse::<proc_macro2::Literal>() {
        Ok(lit) => match syn::Lit::new(lit) {
            syn::Lit::Str(l) => l.value().chars().collect(),
            _ => Vec::new(),
        },
        Err(_) => Vec::new(),
    }
}

} // verus!
