//! The parse stream: a position in a token stream, and the diagnostics that
//! parsing reports.

use vstd::prelude::*;

use crate::ast::ident::{is_word, text_is_word};

use crate::span::Span;
use crate::text::{chars_of, text_is};
use crate::token::{Delimiter, TokenTree};

verus! {

broadcast use vstd::std_specs::vec::group_vec_axioms;

/// An error or note for the user, at a location of the input.
#[derive(Debug)]
pub struct Diagnostic {
    pub span: Span,
    pub message: Vec<char>,
    pub help: Option<Vec<char>>,
}

impl Diagnostic {
    pub fn new(span: Span, message: &str) -> (d: Diagnostic)
        ensures
            d.span == span,
            d.message@ == message@,
            d.help is None,
    {
        Diagnostic { span, message: chars_of(message), help: None }
    }

    pub fn with_help(span: Span, message: &str, help: &str) -> (d: Diagnostic)
        ensures
            d.span == span,
            d.message@ == message@,
            d.help matches Some(h) && h@ == help@,
    {
        Diagnostic { span, message: chars_of(message), help: Some(chars_of(help)) }
    }
}

/// What a diagnostic says, and where.
pub struct Report {
    pub span: Span,
    pub message: Seq<char>,
    pub help: Option<Seq<char>>,
}

impl View for Diagnostic {
    type V = Report;

    open spec fn view(&self) -> Report {
        Report {
            span: self.span,
            message: self.message@,
            help: match self.help {
                Some(h) => Some(h@),
                None => None,
            },
        }
    }
}

/// An error at `span`, without help.
pub open spec fn report(span: Span, message: Seq<char>) -> Report {
    Report { span, message, help: None }
}

/// An error at `span`, with a help note.
pub open spec fn report_help(span: Span, message: Seq<char>, help: Seq<char>) -> Report {
    Report { span, message, help: Some(help) }
}

/// What a list of diagnostics says, in order.
pub open spec fn reports(s: Seq<Diagnostic>) -> Seq<Report> {
    s.map_values(|d: Diagnostic| d@)
}

/// Reporting one more diagnostic adds what it says at the end.
pub broadcast proof fn lemma_reports_push(s: Seq<Diagnostic>, d: Diagnostic)
    ensures
        #[trigger] reports(s.push(d)) == reports(s).push(d@),
{
    assert(reports(s.push(d)) =~= reports(s).push(d@));
}

/// What was reported after `old`, in `new`.
pub open spec fn added(old: Seq<Diagnostic>, new: Seq<Diagnostic>) -> Seq<Report> {
    reports(new).subrange(old.len() as int, new.len() as int)
}

/// What was reported is what had been, then what was added.
pub proof fn lemma_added(a: Seq<Diagnostic>, b: Seq<Diagnostic>)
    requires
        extends(a, b),
    ensures
        reports(b) == reports(a) + added(a, b),
{
    assert(reports(b) =~= reports(a) + added(a, b));
}

/// What was added over two steps is what each step added.
pub proof fn lemma_added_chain(a: Seq<Diagnostic>, b: Seq<Diagnostic>, c: Seq<Diagnostic>)
    requires
        extends(a, b),
        extends(b, c),
    ensures
        added(a, c) == added(a, b) + added(b, c),
{
    assert(added(a, c) =~= added(a, b) + added(b, c));
}

/// `new` holds every diagnostic of `old`, in the same places, and maybe more
/// after them: reported diagnostics are never taken back.
pub open spec fn extends(old: Seq<Diagnostic>, new: Seq<Diagnostic>) -> bool {
    &&& old.len() <= new.len()
    &&& forall|i: int| 0 <= i < old.len() ==> new[i] == old[i]
}

/// Why a parser did not produce a value.
///
/// `Fail` leaves the stream where it was, so that another parser may be
/// tried. `Abort` stops the whole macro: no parser catches it.
#[derive(Debug)]
pub enum ParseError {
    Fail(Diagnostic),
    Abort(Diagnostic),
}

/// A token stream to parse, and the span to report errors at once the stream
/// is used up (the closing delimiter of its group, or the call site).
#[derive(Clone, Copy)]
pub struct Input<'a> {
    pub toks: &'a Vec<TokenTree>,
    pub end: Span,
}

/// A token stream is no longer than a `Vec` can be.
pub broadcast proof fn lemma_input_len(inp: Input)
    ensures
        #[trigger] inp.len() == inp.toks.len(),
{
}

impl<'a> Input<'a> {
    pub open spec fn s(self) -> Seq<TokenTree> {
        self.toks@
    }

    pub open spec fn len(self) -> int {
        self.toks@.len() as int
    }

    pub open spec fn spec_span_at(self, pos: int) -> Span {
        if 0 <= pos < self.len() {
            self.toks@[pos].spec_span()
        } else {
            self.end
        }
    }

    /// The span of the next token, or the end span at the end of the stream.
    pub fn span_at(&self, pos: usize) -> (s: Span)
        ensures
            s == self.spec_span_at(pos as int),
    {
        if pos < self.toks.len() {
            self.toks[pos].span()
        } else {
            self.end
        }
    }

    /// A parse failure at the next token.
    pub fn error(&self, pos: usize, message: &str) -> (e: ParseError)
        ensures
            e matches ParseError::Fail(d) && d.span == self.spec_span_at(pos as int) && d.message@
                == message@ && d.help is None,
    {
        ParseError::Fail(Diagnostic::new(self.span_at(pos), message))
    }

    pub open spec fn spec_peek_punct(self, pos: int, c: char) -> bool {
        0 <= pos < self.len() && self.toks@[pos].is_punct(c)
    }

    /// Whether the next token is the punctuation `c` (`input.peek(Token![c])`).
    pub fn peek_punct(&self, pos: usize, c: char) -> (r: bool)
        ensures
            r == self.spec_peek_punct(pos as int, c),
    {
        if pos < self.toks.len() {
            match &self.toks[pos] {
                TokenTree::Punct { ch, .. } => *ch == c,
                _ => false,
            }
        } else {
            false
        }
    }

    pub open spec fn spec_peek_punct2(self, pos: int, c1: char, c2: char) -> bool {
        &&& 0 <= pos
        &&& pos + 1 < self.len()
        &&& self.toks@[pos].is_joint_punct(c1)
        &&& self.toks@[pos + 1].is_punct(c2)
    }

    /// Whether the next tokens are the two-character punctuation `c1 c2`, like
    /// `::` or `..`.
    pub fn peek_punct2(&self, pos: usize, c1: char, c2: char) -> (r: bool)
        ensures
            r == self.spec_peek_punct2(pos as int, c1, c2),
    {
        if pos < self.toks.len() && pos + 1 < self.toks.len() {
            let a = match &self.toks[pos] {
                TokenTree::Punct { ch, spacing, .. } => *ch == c1 && *spacing == crate::token::Spacing::Joint,
                _ => false,
            };
            let b = match &self.toks[pos + 1] {
                TokenTree::Punct { ch, .. } => *ch == c2,
                _ => false,
            };
            a && b
        } else {
            false
        }
    }

    pub open spec fn spec_peek_ident_any(self, pos: int) -> bool {
        0 <= pos < self.len() && self.toks@[pos] is Ident && is_word(self.toks@[pos].text())
    }

    /// Whether the next token is an identifier, keywords included
    /// (`input.peek(syn::Ident::peek_any)`); its text is a word, as that of
    /// every identifier a lexer makes is.
    pub fn peek_ident_any(&self, pos: usize) -> (r: bool)
        ensures
            r == self.spec_peek_ident_any(pos as int),
    {
        pos < self.toks.len() && match &self.toks[pos] {
            TokenTree::Ident { text, .. } => text_is_word(text),
            _ => false,
        }
    }

    /// Whether the next token is an identifier token, whatever its text.
    pub fn peek_ident_token(&self, pos: usize) -> (r: bool)
        ensures
            r == (pos < self.len() && self.toks@[pos as int] is Ident),
    {
        pos < self.toks.len() && match &self.toks[pos] {
            TokenTree::Ident { .. } => true,
            _ => false,
        }
    }

    pub open spec fn spec_peek_ident(self, pos: int) -> bool {
        &&& 0 <= pos < self.len()
        &&& self.toks@[pos] is Ident
        &&& is_word(self.toks@[pos].text())
        &&& is_plain_ident(self.toks@[pos].text())
    }

    /// Whether the next token is an identifier that is no keyword
    /// (`input.peek(syn::Ident)`).
    pub fn peek_ident(&self, pos: usize) -> (r: bool)
        ensures
            r == self.spec_peek_ident(pos as int),
    {
        pos < self.toks.len() && match &self.toks[pos] {
            TokenTree::Ident { text, .. } => text_is_word(text) && plain_ident(text),
            _ => false,
        }
    }

    pub open spec fn spec_peek_group(self, pos: int, d: Delimiter) -> bool {
        0 <= pos < self.len() && self.toks@[pos].is_group(d)
    }

    /// Whether the next token is a group with the delimiter `d`.
    pub fn peek_group(&self, pos: usize, d: Delimiter) -> (r: bool)
        ensures
            r == self.spec_peek_group(pos as int, d),
    {
        pos < self.toks.len() && match &self.toks[pos] {
            TokenTree::Group { delim, .. } => *delim == d,
            _ => false,
        }
    }

    pub open spec fn spec_peek_ident_text(self, pos: int, t: Seq<char>) -> bool {
        0 <= pos < self.len() && self.toks@[pos] is Ident && self.toks@[pos].text() == t
    }

    /// Whether the next token is the identifier spelled `t`.
    pub fn peek_ident_text(&self, pos: usize, t: &str) -> (r: bool)
        ensures
            r == self.spec_peek_ident_text(pos as int, t@),
    {
        pos < self.toks.len() && match &self.toks[pos] {
            TokenTree::Ident { text, .. } => text_is(text, t),
            _ => false,
        }
    }
}

/// Whether `syn::Ident` takes `text`, all of it, for an identifier: it
/// refuses `_` and the keywords of Rust.
pub uninterp spec fn syn_ident_ok(text: Seq<char>) -> bool;

pub open spec fn is_plain_ident(t: Seq<char>) -> bool {
    syn_ident_ok(t)
}

/// `syn::parse_str::<syn::Ident>` on an identifier's text: whether `syn`
/// takes it for an identifier, that is, whether it is no keyword and not
/// `_`. Nothing more is stated of it than that the answer is a function of
/// the text.
#[verifier::external_body]
fn plain_ident(t: &Vec<char>) -> (r: bool)
    ensures
        r == syn_ident_ok(t@),
{
    let s: String = t.iter().collect();
    syn::parse_str::<syn::Ident>(&s).is_ok()
}

} // verus!
